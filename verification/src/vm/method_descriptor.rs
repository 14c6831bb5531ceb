use vstd::prelude::*;

use crate::text::{chars_of, push_char};
use crate::vm::java_type::{JavaType, SpecJavaType, spec_base_type};

verus! {

/// Why a method descriptor was refused.
#[derive(Debug, Clone, Copy, PartialEq, Eq)]
pub enum MethodDescriptorErr {
    ShouldStartWithParentheses,
    MissingClosingParenthesis,
    UnexpectedEnd,
    InvalidType,
    TrailingCharacters,
}

/// A parsed method descriptor (JVMS 4.3.3): parameter types and return type.
#[derive(Debug, PartialEq, Eq)]
pub struct MethodDescriptor {
    pub params: Vec<JavaType>,
    pub ret: JavaType,
}

/// The mathematical value of a method descriptor.
pub struct SpecMethodDescriptor {
    pub params: Seq<SpecJavaType>,
    pub ret: SpecJavaType,
}

/// The values of a sequence of types.
pub open spec fn types_view(ts: Seq<JavaType>) -> Seq<SpecJavaType> {
    ts.map_values(|t: JavaType| t@)
}

impl View for MethodDescriptor {
    type V = SpecMethodDescriptor;

    open spec fn view(&self) -> SpecMethodDescriptor {
        SpecMethodDescriptor { params: types_view(self.params@), ret: self.ret@ }
    }
}

impl Clone for MethodDescriptor {
    fn clone(&self) -> (res: Self)
        ensures
            res@ == self@,
    {
        let mut params: Vec<JavaType> = Vec::new();
        for i in 0..self.params.len()
            invariant
                types_view(params@) == types_view(self.params@).take(i as int),
        {
            let t = self.params[i].clone();
            let ghost before = params@;
            params.push(t);
            assert(types_view(params@) =~= types_view(before).push(t@));
            assert(types_view(self.params@).take(i + 1) =~= types_view(self.params@).take(
                i as int,
            ).push(self.params@[i as int]@));
        }
        assert(types_view(self.params@).take(self.params@.len() as int) =~= types_view(
            self.params@,
        ));
        MethodDescriptor { params, ret: self.ret.clone() }
    }
}

// ---------------------------------------------------------------------------
// The descriptor grammar, as a function on character sequences.
// ---------------------------------------------------------------------------
/// The class name of an object type `L<name>;`: the characters up to the first
/// `;`, and what follows that `;`. `None` when no `;` follows.
pub open spec fn spec_instance_name(s: Seq<char>) -> Option<(Seq<char>, Seq<char>)>
    decreases s.len(),
{
    if s.len() == 0 {
        None
    } else if s[0] == ';' {
        Some((Seq::<char>::empty(), s.drop_first()))
    } else {
        match spec_instance_name(s.drop_first()) {
            Some((name, rest)) => Some((seq![s[0]] + name, rest)),
            None => None,
        }
    }
}

/// Reads one field type from the front of `s`; gives the type and the characters after it.
pub open spec fn spec_parse_type(s: Seq<char>) -> Result<
    (SpecJavaType, Seq<char>),
    MethodDescriptorErr,
>
    decreases s.len(),
{
    if s.len() == 0 {
        Err(MethodDescriptorErr::UnexpectedEnd)
    } else if spec_base_type(s[0]) is Some {
        Ok((spec_base_type(s[0])->0, s.drop_first()))
    } else if s[0] == 'L' {
        match spec_instance_name(s.drop_first()) {
            Some((name, rest)) => Ok((SpecJavaType::Instance(name), rest)),
            None => Err(MethodDescriptorErr::UnexpectedEnd),
        }
    } else if s[0] == '[' {
        match spec_parse_type(s.drop_first()) {
            Ok((elem, rest)) => Ok((SpecJavaType::Array(Box::new(elem)), rest)),
            Err(e) => Err(e),
        }
    } else {
        Err(MethodDescriptorErr::InvalidType)
    }
}

/// Where reading stands once `spec_parse_type(s)` has failed: at the end for
/// empty input and for an `L` type without its `;` (all of it has been read),
/// after the element of an array type that failed, and just after a character
/// that starts no type.
pub open spec fn spec_type_stop(s: Seq<char>) -> Seq<char>
    decreases s.len(),
{
    if s.len() == 0 {
        s
    } else if s[0] == 'L' {
        Seq::<char>::empty()
    } else if s[0] == '[' {
        spec_type_stop(s.drop_first())
    } else {
        s.drop_first()
    }
}

/// Reads parameter types up to and including the closing `)`.
pub open spec fn spec_parse_params(s: Seq<char>) -> Result<
    (Seq<SpecJavaType>, Seq<char>),
    MethodDescriptorErr,
>
    decreases s.len(),
{
    if s.len() == 0 {
        Err(MethodDescriptorErr::MissingClosingParenthesis)
    } else if s[0] == ')' {
        Ok((Seq::<SpecJavaType>::empty(), s.drop_first()))
    } else {
        match spec_parse_type(s) {
            Ok((t, rest)) => {
                // `rest` is always shorter than `s` (lemma_parse_type_consumes)
                if rest.len() < s.len() {
                    match spec_parse_params(rest) {
                        Ok((ts, rest2)) => Ok((seq![t] + ts, rest2)),
                        Err(e) => Err(e),
                    }
                } else {
                    Err(MethodDescriptorErr::UnexpectedEnd)
                }
            },
            Err(e) => Err(e),
        }
    }
}

/// What parsing a whole method descriptor gives.
pub open spec fn spec_parse_method_descriptor(s: Seq<char>) -> Result<
    SpecMethodDescriptor,
    MethodDescriptorErr,
> {
    if s.len() == 0 || s[0] != '(' {
        Err(MethodDescriptorErr::ShouldStartWithParentheses)
    } else {
        match spec_parse_params(s.drop_first()) {
            Ok((params, rest)) => match spec_parse_type(rest) {
                Ok((ret, rest2)) => if rest2.len() == 0 {
                    Ok(SpecMethodDescriptor { params, ret })
                } else {
                    Err(MethodDescriptorErr::TrailingCharacters)
                },
                Err(e) => Err(e),
            },
            Err(e) => Err(e),
        }
    }
}

// ---------------------------------------------------------------------------
// Writing types back as descriptor text.
// ---------------------------------------------------------------------------
/// The descriptor text of a type.
pub open spec fn spec_render_type(t: SpecJavaType) -> Seq<char>
    decreases t,
{
    match t {
        SpecJavaType::Void => seq!['V'],
        SpecJavaType::Byte => seq!['B'],
        SpecJavaType::Char => seq!['C'],
        SpecJavaType::Double => seq!['D'],
        SpecJavaType::Float => seq!['F'],
        SpecJavaType::Int => seq!['I'],
        SpecJavaType::Long => seq!['J'],
        SpecJavaType::Instance(name) => seq!['L'] + name + seq![';'],
        SpecJavaType::Short => seq!['S'],
        SpecJavaType::Boolean => seq!['Z'],
        SpecJavaType::Array(elem) => seq!['['] + spec_render_type(*elem),
    }
}

/// The descriptor text of a list of parameter types, without parentheses.
pub open spec fn spec_render_params(ps: Seq<SpecJavaType>) -> Seq<char>
    decreases ps.len(),
{
    if ps.len() == 0 {
        Seq::<char>::empty()
    } else {
        spec_render_type(ps[0]) + spec_render_params(ps.drop_first())
    }
}

/// The descriptor text of a method descriptor.
pub open spec fn spec_render_method_descriptor(md: SpecMethodDescriptor) -> Seq<char> {
    seq!['('] + spec_render_params(md.params) + seq![')'] + spec_render_type(md.ret)
}

/// A type that descriptor text can denote: no class name holds a `;`.
pub open spec fn spec_type_well_formed(t: SpecJavaType) -> bool
    decreases t,
{
    match t {
        SpecJavaType::Instance(name) => !name.contains(';'),
        SpecJavaType::Array(elem) => spec_type_well_formed(*elem),
        _ => true,
    }
}

/// Every type of a method descriptor is well formed.
pub open spec fn spec_method_descriptor_well_formed(md: SpecMethodDescriptor) -> bool {
    &&& forall|i: int| 0 <= i < md.params.len() ==> spec_type_well_formed(#[trigger] md.params[i])
    &&& spec_type_well_formed(md.ret)
}

// ---------------------------------------------------------------------------
// Lemmas
// ---------------------------------------------------------------------------
proof fn lemma_instance_name(s: Seq<char>)
    ensures
        spec_instance_name(s) matches Some((name, rest)) ==> {
            &&& s == name + seq![';'] + rest
            &&& !name.contains(';')
        },
    decreases s.len(),
{
    if s.len() > 0 && s[0] != ';' {
        lemma_instance_name(s.drop_first());
        if let Some((name, rest)) = spec_instance_name(s.drop_first()) {
            assert(s == seq![s[0]] + s.drop_first());
            assert(s == (seq![s[0]] + name) + seq![';'] + rest);
            assert forall|i: int| 0 <= i < (seq![s[0]] + name).len() implies (seq![s[0]]
                + name)[i] != ';' by {
                if i > 0 {
                    assert((seq![s[0]] + name)[i] == name[i - 1]);
                }
            }
        }
    } else if s.len() > 0 {
        assert(s == Seq::<char>::empty() + seq![';'] + s.drop_first());
    }
}

proof fn lemma_instance_name_of_render(name: Seq<char>, rest: Seq<char>)
    requires
        !name.contains(';'),
    ensures
        spec_instance_name(name + seq![';'] + rest) == Some((name, rest)),
    decreases name.len(),
{
    let s = name + seq![';'] + rest;
    if name.len() == 0 {
        assert(s[0] == ';');
        assert(s.drop_first() == rest);
    } else {
        assert(s[0] == name[0]);
        assert(!name.drop_first().contains(';')) by {
            if name.drop_first().contains(';') {
                let i = choose|i: int| 0 <= i < name.drop_first().len() && name.drop_first()[i] == ';';
                assert(name[i + 1] == ';');
            }
        }
        assert(s.drop_first() == name.drop_first() + seq![';'] + rest);
        lemma_instance_name_of_render(name.drop_first(), rest);
        assert(seq![name[0]] + name.drop_first() == name);
    }
}

/// A parsed type is well formed, and the text it came from is its descriptor text.
pub proof fn lemma_parse_type_consumes(s: Seq<char>)
    ensures
        spec_parse_type(s) matches Ok((t, rest)) ==> {
            &&& s == spec_render_type(t) + rest
            &&& spec_type_well_formed(t)
            &&& rest.len() < s.len()
        },
    decreases s.len(),
{
    if s.len() > 0 {
        if spec_base_type(s[0]) is Some {
            assert(s == seq![s[0]] + s.drop_first());
        } else if s[0] == 'L' {
            lemma_instance_name(s.drop_first());
            if let Some((name, rest)) = spec_instance_name(s.drop_first()) {
                assert(s == seq!['L'] + s.drop_first());
                assert(s == seq!['L'] + name + seq![';'] + rest);
            }
        } else if s[0] == '[' {
            lemma_parse_type_consumes(s.drop_first());
            if let Ok((elem, rest)) = spec_parse_type(s.drop_first()) {
                assert(s == seq!['['] + s.drop_first());
                assert(s == seq!['['] + spec_render_type(elem) + rest);
            }
        }
    }
}

/// The descriptor text of a well-formed type parses back to that type.
pub proof fn lemma_parse_render_type(t: SpecJavaType, rest: Seq<char>)
    requires
        spec_type_well_formed(t),
    ensures
        spec_parse_type(spec_render_type(t) + rest) == Ok::<_, MethodDescriptorErr>((t, rest)),
    decreases t,
{
    let s = spec_render_type(t) + rest;
    match t {
        SpecJavaType::Instance(name) => {
            assert(s[0] == 'L');
            assert(s.drop_first() == name + seq![';'] + rest);
            lemma_instance_name_of_render(name, rest);
        },
        SpecJavaType::Array(elem) => {
            assert(s[0] == '[');
            assert(s.drop_first() == spec_render_type(*elem) + rest);
            lemma_parse_render_type(*elem, rest);
        },
        _ => {
            assert(s.drop_first() == rest);
        },
    }
}

proof fn lemma_parse_params_consumes(s: Seq<char>)
    ensures
        spec_parse_params(s) matches Ok((ts, rest)) ==> {
            &&& s == spec_render_params(ts) + seq![')'] + rest
            &&& forall|i: int| 0 <= i < ts.len() ==> spec_type_well_formed(#[trigger] ts[i])
        },
    decreases s.len(),
{
    if s.len() > 0 {
        if s[0] == ')' {
            assert(s == Seq::<char>::empty() + seq![')'] + s.drop_first());
        } else {
            lemma_parse_type_consumes(s);
            if let Ok((t, rest)) = spec_parse_type(s) {
                lemma_parse_params_consumes(rest);
                if let Ok((ts, rest2)) = spec_parse_params(rest) {
                    let all = seq![t] + ts;
                    assert(all[0] == t);
                    assert(all.drop_first() == ts);
                    assert(s == spec_render_params(all) + seq![')'] + rest2);
                    assert forall|i: int| 0 <= i < all.len() implies spec_type_well_formed(
                        #[trigger] all[i],
                    ) by {
                        if i > 0 {
                            assert(all[i] == ts[i - 1]);
                        }
                    }
                }
            }
        }
    }
}

proof fn lemma_parse_render_params(ts: Seq<SpecJavaType>, rest: Seq<char>)
    requires
        forall|i: int| 0 <= i < ts.len() ==> spec_type_well_formed(#[trigger] ts[i]),
    ensures
        spec_parse_params(spec_render_params(ts) + seq![')'] + rest) == Ok::<
            _,
            MethodDescriptorErr,
        >((ts, rest)),
    decreases ts.len(),
{
    let s = spec_render_params(ts) + seq![')'] + rest;
    if ts.len() == 0 {
        assert(s == seq![')'] + rest);
        assert(s.drop_first() == rest);
        assert(ts == Seq::<SpecJavaType>::empty());
    } else {
        let tail = spec_render_params(ts.drop_first()) + seq![')'] + rest;
        assert(s == spec_render_type(ts[0]) + tail);
        assert(spec_type_well_formed(ts[0]));
        lemma_parse_render_type(ts[0], tail);
        assert forall|i: int| 0 <= i < ts.drop_first().len() implies spec_type_well_formed(
            #[trigger] ts.drop_first()[i],
        ) by {
            assert(ts.drop_first()[i] == ts[i + 1]);
        }
        lemma_parse_render_params(ts.drop_first(), rest);
        lemma_parse_type_consumes(s);
        // the first character of a rendered type is never ')'
        assert(spec_render_type(ts[0]).len() > 0);
        assert(s[0] == spec_render_type(ts[0])[0]);
        assert(s[0] != ')') by {
            reveal_with_fuel(spec_render_type, 1);
        }
        assert(tail.len() < s.len());
        assert(seq![ts[0]] + ts.drop_first() == ts);
        assert(spec_parse_type(s) == Ok::<_, MethodDescriptorErr>((ts[0], tail)));
        assert(spec_parse_params(tail) == Ok::<_, MethodDescriptorErr>((ts.drop_first(), rest)));
    }
}

/// Law: the descriptor text of a well-formed method descriptor parses back to it.
pub proof fn law_parse_renders_back(md: SpecMethodDescriptor)
    requires
        spec_method_descriptor_well_formed(md),
    ensures
        spec_parse_method_descriptor(spec_render_method_descriptor(md)) == Ok::<
            _,
            MethodDescriptorErr,
        >(md),
{
    let s = spec_render_method_descriptor(md);
    let inner = spec_render_params(md.params) + seq![')'] + spec_render_type(md.ret);
    assert(s == seq!['('] + inner);
    assert(s.drop_first() == inner);
    lemma_parse_render_params(md.params, spec_render_type(md.ret));
    lemma_parse_render_type(md.ret, Seq::<char>::empty());
    assert(spec_render_type(md.ret) + Seq::<char>::empty() == spec_render_type(md.ret));
}

/// Law: a descriptor that parses is exactly the descriptor text of what it parses
/// to, and what it parses to is well formed. So text and parsed descriptors are in
/// one-to-one correspondence.
pub proof fn law_parsed_descriptor_renders_to_input(s: Seq<char>)
    ensures
        spec_parse_method_descriptor(s) matches Ok(md) ==> {
            &&& spec_render_method_descriptor(md) == s
            &&& spec_method_descriptor_well_formed(md)
        },
{
    if s.len() > 0 && s[0] == '(' {
        lemma_parse_params_consumes(s.drop_first());
        if let Ok((params, rest)) = spec_parse_params(s.drop_first()) {
            lemma_parse_type_consumes(rest);
            if let Ok((ret, rest2)) = spec_parse_type(rest) {
                if rest2.len() == 0 {
                    assert(rest2 == Seq::<char>::empty());
                    assert(rest == spec_render_type(ret));
                    assert(s == seq!['('] + s.drop_first());
                }
            }
        }
    }
}

// ---------------------------------------------------------------------------
// Reading descriptor text
// ---------------------------------------------------------------------------
/// A reader over the characters of a descriptor, with one character of look-ahead.
pub struct DescriptorReader {
    chars: Vec<char>,
    pos: usize,
}

impl View for DescriptorReader {
    type V = Seq<char>;

    /// The characters not yet read.
    closed spec fn view(&self) -> Seq<char> {
        self.chars@.subrange(self.pos as int, self.chars@.len() as int)
    }
}

impl DescriptorReader {
    #[verifier::type_invariant]
    spec fn inv(&self) -> bool {
        self.pos <= self.chars.len()
    }

    /// A reader positioned at the first character of `s`.
    pub fn new(s: &str) -> (r: DescriptorReader)
        ensures
            r@ == s@,
    {
        DescriptorReader { chars: chars_of(s), pos: 0 }
    }

    /// The next character, without reading it.
    pub fn peek(&self) -> (c: Option<char>)
        ensures
            c == (if self@.len() > 0 { Some(self@[0]) } else { None::<char> }),
    {
        proof {
            use_type_invariant(self);
        }
        if self.pos < self.chars.len() {
            Some(self.chars[self.pos])
        } else {
            None
        }
    }

    /// Reads the next character; at the end nothing is read.
    pub fn next(&mut self) -> (c: Option<char>)
        ensures
            old(self)@.len() > 0 ==> c == Some(old(self)@[0]) && final(self)@ == old(
                self,
            )@.drop_first(),
            old(self)@.len() == 0 ==> c is None && final(self)@ == old(self)@,
    {
        proof {
            use_type_invariant(&*self);
        }
        if self.pos < self.chars.len() {
            let c = self.chars[self.pos];
            self.pos = self.pos + 1;
            Some(c)
        } else {
            None
        }
    }
}

impl MethodDescriptor {
    /// Reads one field type (JVMS 4.3.2) from `it`.
    pub fn parse_type(it: &mut DescriptorReader) -> (res: Result<JavaType, MethodDescriptorErr>)
        ensures
            match spec_parse_type(old(it)@) {
                Ok((t, rest)) => res matches Ok(r) && r@ == t && final(it)@ == rest,
                Err(e) => res == Err::<JavaType, _>(e) && final(it)@ == spec_type_stop(old(it)@),
            },
            final(it)@.len() <= old(it)@.len(),
        decreases old(it)@.len(),
    {
        let c = match it.next() {
            Some(c) => c,
            None => return Err(MethodDescriptorErr::UnexpectedEnd),
        };
        if let Ok(base) = JavaType::try_from(c) {
            return Ok(base);
        }
        match c {
            'L' => {
                let ghost start = it@;
                let ghost target = spec_parse_type(old(it)@);
                assert(target == match spec_instance_name(start) {
                    Some((n, r)) => Ok((SpecJavaType::Instance(n), r)),
                    None => Err(MethodDescriptorErr::UnexpectedEnd),
                });
                assert(spec_type_stop(old(it)@) == Seq::<char>::empty());
                let mut instance_name = String::new();
                loop
                    invariant
                        spec_type_stop(old(it)@) == Seq::<char>::empty(),
                        it@.len() <= start.len(),
                        start.len() < old(it)@.len(),
                        target == spec_parse_type(old(it)@),
                        target == match spec_instance_name(start) {
                            Some((n, r)) => Ok((SpecJavaType::Instance(n), r)),
                            None => Err(MethodDescriptorErr::UnexpectedEnd),
                        },
                        match spec_instance_name(it@) {
                            Some((n, r)) => spec_instance_name(start) == Some((instance_name@ + n, r)),
                            None => spec_instance_name(start) is None,
                        },
                    decreases it@.len(),
                {
                    match it.peek() {
                        Some(next) => {
                            let ghost before = it@;
                            it.next();
                            if next == ';' {
                                proof {
                                    assert(instance_name@ + Seq::<char>::empty() == instance_name@);
                                }
                                return Ok(JavaType::Instance(instance_name));
                            }
                            let ghost old_name = instance_name@;
                            push_char(&mut instance_name, next);
                            proof {
                                if let Some((n, r)) = spec_instance_name(it@) {
                                    assert(old_name + (seq![next] + n) == instance_name@ + n);
                                }
                            }
                        },
                        None => {
                            assert(it@ =~= Seq::<char>::empty());
                            return Err(MethodDescriptorErr::UnexpectedEnd);
                        },
                    }
                }
            },
            '[' => {
                let elem = Self::parse_type(it)?;
                Ok(JavaType::Array(Box::new(elem)))
            },
            _ => Err(MethodDescriptorErr::InvalidType),
        }
    }

    /// Parses a method descriptor such as `(I[Ljava/lang/String;)V`.
    pub fn try_from(desc: &str) -> (res: Result<MethodDescriptor, MethodDescriptorErr>)
        ensures
            match spec_parse_method_descriptor(desc@) {
                Ok(md) => res matches Ok(r) && r@ == md,
                Err(e) => res == Err::<MethodDescriptor, _>(e),
            },
    {
        let mut chars = DescriptorReader::new(desc);
        match chars.next() {
            Some('(') => {},
            _ => return Err(MethodDescriptorErr::ShouldStartWithParentheses),
        }
        let ghost start = chars@;
        let mut params: Vec<JavaType> = Vec::new();
        loop
            invariant_except_break
                desc@.len() > 0,
                desc@[0] == '(',
                start == desc@.drop_first(),
                match spec_parse_params(chars@) {
                    Ok((ts, r)) => spec_parse_params(start) == Ok::<_, MethodDescriptorErr>(
                        (types_view(params@) + ts, r),
                    ),
                    Err(e) => spec_parse_params(start) == Err::<
                        (Seq<SpecJavaType>, Seq<char>),
                        _,
                    >(e),
                },
            ensures
                desc@.len() > 0,
                desc@[0] == '(',
                start == desc@.drop_first(),
                spec_parse_params(start) == Ok::<_, MethodDescriptorErr>(
                    (types_view(params@), chars@),
                ),
            decreases chars@.len(),
        {
            match chars.peek() {
                Some(')') => {
                    chars.next();
                    proof {
                        assert(types_view(params@) + Seq::<SpecJavaType>::empty() == types_view(
                            params@,
                        ));
                    }
                    break ;
                },
                Some(_) => {
                    let ghost before = chars@;
                    let ghost old_params = params@;
                    proof {
                        lemma_parse_type_consumes(before);
                    }
                    let t = Self::parse_type(&mut chars)?;
                    params.push(t);
                    proof {
                        assert(types_view(params@) == types_view(old_params).push(t@));
                        if let Ok((ts, r)) = spec_parse_params(chars@) {
                            assert(types_view(old_params) + (seq![t@] + ts) == types_view(params@)
                                + ts);
                        }
                    }
                },
                None => {
                    return Err(MethodDescriptorErr::MissingClosingParenthesis);
                },
            }
        }
        let ret = Self::parse_type(&mut chars)?;
        if chars.next().is_some() {
            return Err(MethodDescriptorErr::TrailingCharacters);
        }
        Ok(MethodDescriptor { params, ret })
    }
}

/// What parsing a field descriptor (a single field type, JVMS 4.3.2) gives.
pub open spec fn spec_parse_field_descriptor(s: Seq<char>) -> Result<
    SpecJavaType,
    MethodDescriptorErr,
> {
    match spec_parse_type(s) {
        Ok((t, rest)) => if rest.len() == 0 {
            Ok(t)
        } else {
            Err(MethodDescriptorErr::TrailingCharacters)
        },
        Err(e) => Err(e),
    }
}

/// Parses a field descriptor such as `[Ljava/lang/String;`: one type and nothing after it.
pub fn parse_field_descriptor(desc: &str) -> (res: Result<JavaType, MethodDescriptorErr>)
    ensures
        match spec_parse_field_descriptor(desc@) {
            Ok(t) => res matches Ok(r) && r@ == t,
            Err(e) => res == Err::<JavaType, _>(e),
        },
{
    let mut chars = DescriptorReader::new(desc);
    let t = MethodDescriptor::parse_type(&mut chars)?;
    if chars.next().is_some() {
        return Err(MethodDescriptorErr::TrailingCharacters);
    }
    Ok(t)
}

} // verus!
