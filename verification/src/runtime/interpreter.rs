use vstd::prelude::*;

use crate::jclass::method::ExceptionTableEntry;

verus! {

/// The bytecode interpreter's control-flow rules.
pub struct Interpreter;

/// A method's frame as the interpreter's steps see it: the pc and the operand stack.
pub struct Frame<V> {
    pub pc: usize,
    pub operands: Vec<V>,
}

/// What running one instruction gave.
pub enum Executed<V> {
    /// A return instruction ran, with the value it returns, if any.
    Returned(Option<V>),
    /// Any other instruction ran.
    Done,
}

/// Whether the method goes on with its next instruction or has returned.
pub enum Flow<V> {
    Continue,
    Return(Option<V>),
}

impl Interpreter {
    /// The target of a branch with a 16-bit offset from `bci`. The sum is taken
    /// in `isize`; `requires` leaves out the inputs on which it overflows.
    pub fn branch16(bci: usize, off: i16) -> (target: usize)
        requires
            isize::MIN <= (bci as isize) as int + off as int <= isize::MAX,
        ensures
            target == ((bci as isize) as int + off as int) as usize,
            bci <= isize::MAX && bci + off >= 0 ==> target == bci + off,
    {
        ((bci as isize) + (off as isize)) as usize
    }

    /// The target of a branch with a 32-bit offset from `bci`. The sum is taken
    /// in `isize`; `requires` leaves out the inputs on which it overflows.
    pub fn branch32(bci: usize, off: i32) -> (target: usize)
        requires
            isize::MIN <= (bci as isize) as int + off as int <= isize::MAX,
        ensures
            target == ((bci as isize) as int + off as int) as usize,
            bci <= isize::MAX && bci + off >= 0 ==> target == bci + off,
    {
        ((bci as isize) + (off as isize)) as usize
    }

    /// Whether `pc` lies in the range `[start_pc, end_pc)` that `entry` covers.
    pub fn pc_in_range(pc: usize, entry: &ExceptionTableEntry) -> (r: bool)
        ensures
            r == (entry.start_pc <= pc && pc < entry.end_pc),
    {
        pc >= entry.start_pc as usize && pc < entry.end_pc as usize
    }

    /// The arguments of a call, taken from the top of the operand stack: the
    /// method's `params_len` parameters, and before them the receiver when the
    /// method is not static. The last argument is the top of the stack; the
    /// arguments come back in declaration order. When the stack holds fewer
    /// values, all of them are popped and `None` is returned.
    pub fn prepare_method_args<T>(operands: &mut Vec<T>, params_len: usize, is_static: bool) -> (res:
        Option<Vec<T>>)
        requires
            params_len < usize::MAX,
        ensures
            ({
                let n = if is_static {
                    params_len as int
                } else {
                    params_len + 1
                };
                let len = old(operands)@.len() as int;
                if n <= len {
                    &&& res matches Some(args) && args@ == old(operands)@.subrange(len - n, len)
                    &&& final(operands)@ == old(operands)@.subrange(0, len - n)
                    &&& res matches Some(args) && final(operands)@ + args@ == old(operands)@
                } else {
                    &&& res is None
                    &&& final(operands)@ == Seq::<T>::empty()
                }
            }),
    {
        let mut args_count = params_len;
        if !is_static {
            args_count += 1;
        }
        let ghost len = operands@.len() as int;
        let mut popped: Vec<T> = Vec::new();
        let mut i: usize = 0;
        while i < args_count
            invariant
                i <= args_count,
                args_count as int == (if is_static {
                    params_len as int
                } else {
                    params_len + 1
                }),
                len == old(operands)@.len(),
                i <= len,
                operands@ == old(operands)@.subrange(0, len - i),
                popped@.len() == i,
                forall|j: int| 0 <= j < i ==> #[trigger] popped@[j] == old(operands)@[len - 1 - j],
            decreases args_count - i,
        {
            match operands.pop() {
                Some(v) => {
                    popped.push(v);
                },
                None => {
                    return None;
                },
            }
            i = i + 1;
        }
        let mut args: Vec<T> = Vec::new();
        while popped.len() > 0
            invariant
                popped@.len() + args@.len() == args_count,
                args_count <= len,
                forall|j: int| 0 <= j < popped@.len() ==> #[trigger] popped@[j] == old(operands)@[len - 1 - j],
                forall|j: int| 0 <= j < args@.len() ==> #[trigger] args@[j] == old(operands)@[len - args_count + j],
            decreases popped@.len(),
        {
            let v = popped.pop().unwrap();
            args.push(v);
        }
        assert(args@ =~= old(operands)@.subrange(len - args_count, len));
        assert(operands@ + args@ =~= old(operands)@);
        Some(args)
    }

    /// Whether the handler of `entry` catches the exception being thrown: a
    /// catch type of 0 catches every exception; any other catch type is decided
    /// by `instance_of`, which tells whether the exception is an instance of
    /// the class that the catch type names.
    pub fn is_exception_caught<E, F: Fn(u16) -> Result<bool, E>>(
        entry: &ExceptionTableEntry,
        instance_of: &F,
    ) -> (r: Result<bool, E>)
        requires
            entry.catch_type != 0 ==> call_requires(*instance_of, (entry.catch_type,)),
        ensures
            spec_catch_outcome(*entry, *instance_of, r),
    {
        let catch_type = entry.catch_type;
        if catch_type == 0 {
            return Ok(true);
        }
        instance_of(catch_type)
    }

    /// Looks for the handler of an exception thrown at `pc`: the first entry of
    /// `exception_table` whose range covers `pc` and that catches the exception
    /// (see `is_exception_caught`). Gives that entry's handler pc, or `None`
    /// when no entry catches it; an error of `instance_of` ends the search.
    pub fn find_exception_handler<E, F: Fn(u16) -> Result<bool, E>>(
        exception_table: &[ExceptionTableEntry],
        pc: usize,
        instance_of: &F,
    ) -> (r: Result<Option<usize>, E>)
        requires
            forall|c: u16| c != 0 ==> call_requires(*instance_of, (c,)),
        ensures
            r matches Ok(None) ==> forall|j: int|
                0 <= j < exception_table@.len() && spec_pc_in_range(pc, #[trigger] exception_table@[j])
                    ==> spec_catch_outcome(exception_table@[j], *instance_of, Ok::<bool, E>(false)),
            r matches Ok(Some(h)) ==> exists|i: int|
                0 <= i < exception_table@.len() && spec_pc_in_range(pc, #[trigger] exception_table@[i])
                    && spec_catch_outcome(exception_table@[i], *instance_of, Ok::<bool, E>(true))
                    && h == exception_table@[i].handler_pc
                    && spec_none_caught_before(exception_table@, pc, *instance_of, i),
            r matches Err(e) ==> exists|i: int|
                0 <= i < exception_table@.len() && spec_pc_in_range(pc, #[trigger] exception_table@[i])
                    && spec_catch_outcome(exception_table@[i], *instance_of, Err::<bool, E>(e))
                    && spec_none_caught_before(exception_table@, pc, *instance_of, i),
    {
        let n = exception_table.len();
        for k in 0..n
            invariant
                n == exception_table@.len(),
                forall|c: u16| c != 0 ==> call_requires(*instance_of, (c,)),
                spec_none_caught_before(exception_table@, pc, *instance_of, k as int),
        {
            let entry = &exception_table[k];
            if Self::pc_in_range(pc, entry) {
                match Self::is_exception_caught(entry, instance_of) {
                    Ok(true) => {
                        assert(spec_pc_in_range(pc, exception_table@[k as int]));
                        return Ok(Some(entry.handler_pc as usize));
                    },
                    Ok(false) => {},
                    Err(e) => {
                        assert(spec_pc_in_range(pc, exception_table@[k as int]));
                        return Err(e);
                    },
                }
            }
        }
        Ok(None)
    }

    /// Handles `exception`, thrown at the frame's pc: looks for its handler
    /// (see `find_exception_handler`); when one catches it, the exception is
    /// pushed on the operand stack and the pc jumps to the handler, and `true`
    /// comes back. Otherwise, and when `instance_of` fails, the frame is left
    /// as it was.
    pub fn catch_exception<V, E, F: Fn(u16) -> Result<bool, E>>(
        frame: &mut Frame<V>,
        exception_table: &[ExceptionTableEntry],
        exception: V,
        instance_of: &F,
    ) -> (r: Result<bool, E>)
        requires
            forall|c: u16| c != 0 ==> call_requires(*instance_of, (c,)),
        ensures
            r matches Ok(true) ==> exists|i: int|
                0 <= i < exception_table@.len() && spec_pc_in_range(
                    old(frame).pc,
                    #[trigger] exception_table@[i],
                ) && spec_catch_outcome(exception_table@[i], *instance_of, Ok::<bool, E>(true))
                    && spec_none_caught_before(exception_table@, old(frame).pc, *instance_of, i)
                    && final(frame).pc == exception_table@[i].handler_pc
                    && final(frame).operands@ == old(frame).operands@.push(exception),
            r matches Ok(false) ==> (forall|j: int|
                0 <= j < exception_table@.len() && spec_pc_in_range(
                    old(frame).pc,
                    #[trigger] exception_table@[j],
                ) ==> spec_catch_outcome(exception_table@[j], *instance_of, Ok::<bool, E>(false)))
                && final(frame).pc == old(frame).pc && final(frame).operands@ == old(
                frame,
            ).operands@,
            r matches Err(e) ==> (exists|i: int|
                0 <= i < exception_table@.len() && spec_pc_in_range(
                    old(frame).pc,
                    #[trigger] exception_table@[i],
                ) && spec_catch_outcome(exception_table@[i], *instance_of, Err::<bool, E>(e))
                    && spec_none_caught_before(exception_table@, old(frame).pc, *instance_of, i))
                && final(frame).pc == old(frame).pc && final(frame).operands@ == old(
                frame,
            ).operands@,
    {
        match Self::find_exception_handler(exception_table, frame.pc, instance_of) {
            Ok(Some(handler_pc)) => {
                frame.operands.push(exception);
                frame.pc = handler_pc;
                Ok(true)
            },
            Ok(None) => Ok(false),
            Err(e) => Err(e),
        }
    }

    /// Ends the step of one instruction: after a return instruction the method
    /// returns its value and the pc stays; after any other instruction the
    /// method goes on, the pc advancing by the instruction's size unless the
    /// instruction branched (a branch has set the pc itself).
    pub fn finish_instruction<V>(
        frame: &mut Frame<V>,
        is_branch: bool,
        byte_size: usize,
        executed: Executed<V>,
    ) -> (flow: Flow<V>)
        requires
            !is_branch && executed is Done ==> old(frame).pc + byte_size <= usize::MAX,
        ensures
            final(frame).operands@ == old(frame).operands@,
            match executed {
                Executed::Returned(v) => flow == Flow::Return(v) && final(frame).pc == old(frame).pc,
                Executed::Done => flow is Continue && final(frame).pc == (if is_branch {
                    old(frame).pc as int
                } else {
                    old(frame).pc + byte_size
                }),
            },
    {
        match executed {
            Executed::Returned(v) => Flow::Return(v),
            Executed::Done => {
                if !is_branch {
                    frame.pc = frame.pc + byte_size;
                }
                Flow::Continue
            },
        }
    }
}

/// Whether `pc` lies in the range an entry covers.
pub open spec fn spec_pc_in_range(pc: usize, entry: ExceptionTableEntry) -> bool {
    entry.start_pc <= pc && pc < entry.end_pc
}

/// Whether `r` is an outcome that asking if `entry` catches the exception can have.
pub open spec fn spec_catch_outcome<E, F: Fn(u16) -> Result<bool, E>>(
    entry: ExceptionTableEntry,
    instance_of: F,
    r: Result<bool, E>,
) -> bool {
    if entry.catch_type == 0 {
        r == Ok::<bool, E>(true)
    } else {
        call_ensures(instance_of, (entry.catch_type,), r)
    }
}

/// No entry before position `i` that covers `pc` was found to catch the exception.
pub open spec fn spec_none_caught_before<E, F: Fn(u16) -> Result<bool, E>>(
    table: Seq<ExceptionTableEntry>,
    pc: usize,
    instance_of: F,
    i: int,
) -> bool {
    forall|j: int|
        0 <= j < i && spec_pc_in_range(pc, #[trigger] table[j]) ==> spec_catch_outcome(
            table[j],
            instance_of,
            Ok::<bool, E>(false),
        )
}

} // verus!
