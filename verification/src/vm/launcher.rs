use vstd::prelude::*;

use crate::text::{chars_of, push_char, string_of};

verus! {

/// The launcher's command line: class-path entries (directories) and the main
/// class, written with `.` or `/` between package names.
#[derive(Debug, Clone)]
pub struct Args {
    pub class_path: Vec<String>,
    pub main_class_path: String,
}

/// What the virtual machine is started with.
#[derive(Debug, Clone)]
pub struct VmConfig {
    pub home: String,
    pub main_class: String,
    pub version: String,
    pub class_path: Vec<String>,
    pub initial_heap_size: usize,
    pub max_heap_size: usize,
    pub frame_stack_size: usize,
    pub operand_stack_size: usize,
}

/// A class name with every `.` written as `/`.
pub open spec fn spec_internal_name(s: Seq<char>) -> Seq<char> {
    s.map_values(|c: char| if c == '.' { '/' } else { c })
}

/// Turns `com.example.Main` into the internal form `com/example/Main`.
pub fn main_class_name(main_class_path: &str) -> (name: String)
    ensures
        name@ == spec_internal_name(main_class_path@),
{
    let chars = chars_of(main_class_path);
    let mut name = String::new();
    let mut i: usize = 0;
    while i < chars.len()
        invariant
            i <= chars@.len(),
            chars@ == main_class_path@,
            name@ == spec_internal_name(chars@.take(i as int)),
        decreases chars@.len() - i,
    {
        let c = chars[i];
        push_char(
            &mut name,
            if c == '.' {
                '/'
            } else {
                c
            },
        );
        assert(chars@.take(i + 1) == chars@.take(i as int).push(c));
        assert(name@ =~= spec_internal_name(chars@.take(i + 1)));
        i = i + 1;
    }
    assert(chars@.take(chars@.len() as int) == chars@);
    name
}

// ---------------------------------------------------------------------------
// The `release` file of a Java installation
// ---------------------------------------------------------------------------
/// The text up to the first `\n`, what follows that `\n`, and whether there was one.
pub open spec fn spec_split_line(s: Seq<char>) -> (Seq<char>, Seq<char>, bool)
    decreases s.len(),
{
    if s.len() == 0 {
        (Seq::<char>::empty(), Seq::<char>::empty(), false)
    } else if s[0] == '\n' {
        (Seq::<char>::empty(), s.drop_first(), true)
    } else {
        let (line, rest, ended) = spec_split_line(s.drop_first());
        (seq![s[0]] + line, rest, ended)
    }
}

/// A line as `str::lines` gives it: a `\r` before the ending `\n` is dropped.
pub open spec fn spec_strip_cr(raw: Seq<char>, ended: bool) -> Seq<char> {
    if ended && raw.len() > 0 && raw.last() == '\r' {
        raw.drop_last()
    } else {
        raw
    }
}

/// The text with every leading `"` removed.
pub open spec fn spec_trim_start_quotes(s: Seq<char>) -> Seq<char>
    decreases s.len(),
{
    if s.len() > 0 && s[0] == '"' {
        spec_trim_start_quotes(s.drop_first())
    } else {
        s
    }
}

/// The text with every trailing `"` removed.
pub open spec fn spec_trim_end_quotes(s: Seq<char>) -> Seq<char>
    decreases s.len(),
{
    if s.len() > 0 && s.last() == '"' {
        spec_trim_end_quotes(s.drop_last())
    } else {
        s
    }
}

/// `str::trim_matches('"')`.
pub open spec fn spec_trim_quotes(s: Seq<char>) -> Seq<char> {
    spec_trim_end_quotes(spec_trim_start_quotes(s))
}

/// The key that names the Java version in a `release` file.
pub open spec fn spec_version_key() -> Seq<char> {
    seq!['J', 'A', 'V', 'A', '_', 'V', 'E', 'R', 'S', 'I', 'O', 'N', '=']
}

/// The value of the first line of `s` that starts with `JAVA_VERSION=`, its
/// surrounding quotes removed.
pub open spec fn spec_release_version(s: Seq<char>) -> Option<Seq<char>>
    decreases s.len(),
{
    if s.len() == 0 {
        None
    } else {
        let (raw, rest, ended) = spec_split_line(s);
        let line = spec_strip_cr(raw, ended);
        if line.len() >= 13 && line.take(13) == spec_version_key() {
            Some(spec_trim_quotes(line.skip(13)))
        } else if rest.len() < s.len() {
            spec_release_version(rest)
        } else {
            None
        }
    }
}

proof fn lemma_split_line(s: Seq<char>, k: int)
    requires
        0 <= k <= s.len(),
        forall|i: int| 0 <= i < k ==> s[i] != '\n',
        k == s.len() || s[k] == '\n',
    ensures
        spec_split_line(s) == (if k < s.len() {
            (s.take(k), s.skip(k + 1), true)
        } else {
            (s, Seq::<char>::empty(), false)
        }),
    decreases k,
{
    if k == 0 {
        if s.len() > 0 {
            assert(s.take(0) == Seq::<char>::empty());
            assert(s.drop_first() == s.skip(1));
        } else {
            assert(s == Seq::<char>::empty());
        }
    } else {
        let t = s.drop_first();
        lemma_split_line(t, k - 1);
        if k < s.len() {
            assert(seq![s[0]] + t.take(k - 1) == s.take(k));
            assert(t.skip(k) == s.skip(k + 1));
        } else {
            assert(seq![s[0]] + t == s);
        }
    }
}

proof fn lemma_trim_start(s: Seq<char>, a: int, b: int, a2: int)
    requires
        0 <= a <= a2 <= b <= s.len(),
        forall|i: int| a <= i < a2 ==> s[i] == '"',
        a2 == b || s[a2] != '"',
    ensures
        spec_trim_start_quotes(s.subrange(a, b)) == s.subrange(a2, b),
    decreases a2 - a,
{
    if a < a2 {
        assert(s.subrange(a, b).drop_first() == s.subrange(a + 1, b));
        lemma_trim_start(s, a + 1, b, a2);
    }
}

proof fn lemma_trim_end(s: Seq<char>, a: int, b: int, b2: int)
    requires
        0 <= a <= b2 <= b <= s.len(),
        forall|i: int| b2 <= i < b ==> s[i] == '"',
        b2 == a || s[b2 - 1] != '"',
    ensures
        spec_trim_end_quotes(s.subrange(a, b)) == s.subrange(a, b2),
    decreases b - b2,
{
    if b2 < b {
        assert(s.subrange(a, b).drop_last() == s.subrange(a, b - 1));
        lemma_trim_end(s, a, b - 1, b2);
    }
}

/// Whether `chars[from..]` starts with `JAVA_VERSION=` within `chars[..to]`.
fn starts_with_version_key(chars: &Vec<char>, from: usize, to: usize) -> (r: bool)
    requires
        from <= to <= chars@.len(),
    ensures
        r == (to - from >= 13 && chars@.subrange(from as int, to as int).take(13)
            == spec_version_key()),
{
    if to - from < 13 {
        return false;
    }
    let key: Vec<char> = vec!['J', 'A', 'V', 'A', '_', 'V', 'E', 'R', 'S', 'I', 'O', 'N', '='];
    assert(key@ == spec_version_key());
    let mut i: usize = 0;
    while i < 13
        invariant
            i <= 13,
            from + 13 <= to <= chars@.len(),
            key@ == spec_version_key(),
            forall|j: int| 0 <= j < i ==> chars@[from + j] == key@[j],
        decreases 13 - i,
    {
        if chars[from + i] != key[i] {
            assert(chars@.subrange(from as int, to as int).take(13)[i as int] != spec_version_key()[i as int]);
            return false;
        }
        i = i + 1;
    }
    assert(chars@.subrange(from as int, to as int).take(13) =~= spec_version_key());
    true
}

/// The Java version named in the contents of a `release` file: the value of the
/// first line that starts with `JAVA_VERSION=`, without its quotes.
pub fn java_version_from_release(contents: &str) -> (res: Option<String>)
    ensures
        match spec_release_version(contents@) {
            Some(v) => res matches Some(r) && r@ == v,
            None => res is None,
        },
{
    let chars = chars_of(contents);
    let len = chars.len();
    let mut pos: usize = 0;
    assert(chars@.skip(0) == chars@);
    while pos < len
        invariant
            pos <= len,
            len == chars@.len(),
            chars@ == contents@,
            spec_release_version(chars@) == spec_release_version(chars@.skip(pos as int)),
        decreases len - pos,
    {
        let ghost s = chars@.skip(pos as int);
        let mut end = pos;
        while end < len && chars[end] != '\n'
            invariant
                pos <= end <= len,
                len == chars@.len(),
                forall|i: int| pos <= i < end ==> chars@[i] != '\n',
            decreases len - end,
        {
            end = end + 1;
        }
        let ended = end < len;
        proof {
            lemma_split_line(s, end - pos);
        }
        // the line, without a `\r` before its `\n`
        let line_end = if ended && end > pos && chars[end - 1] == '\r' {
            end - 1
        } else {
            end
        };
        proof {
            let (raw, rest, e) = spec_split_line(s);
            assert(raw == chars@.subrange(pos as int, end as int));
            assert(spec_strip_cr(raw, e) == chars@.subrange(pos as int, line_end as int));
        }
        if starts_with_version_key(&chars, pos, line_end) {
            let mut a = pos + 13;
            while a < line_end && chars[a] == '"'
                invariant
                    pos + 13 <= a <= line_end,
                    line_end <= len,
                    len == chars@.len(),
                    forall|i: int| pos + 13 <= i < a ==> chars@[i] == '"',
                decreases line_end - a,
            {
                a = a + 1;
            }
            let mut b = line_end;
            while b > a && chars[b - 1] == '"'
                invariant
                    a <= b <= line_end,
                    line_end <= len,
                    len == chars@.len(),
                    forall|i: int| b <= i < line_end ==> chars@[i] == '"',
                decreases b - a,
            {
                b = b - 1;
            }
            proof {
                let line = chars@.subrange(pos as int, line_end as int);
                assert(line.skip(13) == chars@.subrange(pos + 13, line_end as int));
                lemma_trim_start(chars@, pos + 13, line_end as int, a as int);
                lemma_trim_end(chars@, a as int, line_end as int, b as int);
            }
            return Some(string_of(&chars, a, b));
        }
        proof {
            if ended {
                assert(s.skip(end - pos + 1) == chars@.skip(end + 1));
            } else {
                assert(chars@.skip(len as int) == Seq::<char>::empty());
            }
        }
        pos = if ended {
            end + 1
        } else {
            len
        };
    }
    None
}

/// The configuration the virtual machine starts with: the class path gets the
/// current directory appended, and the version comes from the contents of the
/// Java installation's `release` file. Without a `JAVA_VERSION` line the
/// configuration is refused with a message.
pub fn create_vm_configuration(
    args: Args,
    main_class: String,
    java_home: String,
    current_dir: String,
    release_contents: &str,
) -> (res: Result<VmConfig, String>)
    ensures
        match spec_release_version(release_contents@) {
            Some(v) => res matches Ok(c) && c.home == java_home && c.main_class == main_class
                && c.version@ == v && c.class_path@ == args.class_path@.push(current_dir)
                && c.initial_heap_size == 0 && c.max_heap_size == 0 && c.frame_stack_size == 256
                && c.operand_stack_size == 256,
            None => res matches Err(e) && e@ == "JAVA_VERSION not found in release file"@,
        },
{
    let mut class_path = args.class_path;
    class_path.push(current_dir);
    match java_version_from_release(release_contents) {
        Some(version) => Ok(
            VmConfig {
                home: java_home,
                main_class,
                version,
                class_path,
                initial_heap_size: 0,
                max_heap_size: 0,
                frame_stack_size: 256,
                operand_stack_size: 256,
            },
        ),
        None => Err("JAVA_VERSION not found in release file".to_owned()),
    }
}

/// Law: the internal form of a class name holds no `.`, keeps its length, and
/// differs from the given name only where that held a `.`.
pub proof fn law_internal_name(s: Seq<char>)
    ensures
        spec_internal_name(s).len() == s.len(),
        !spec_internal_name(s).contains('.'),
        forall|i: int| 0 <= i < s.len() && s[i] != '.' ==> #[trigger] spec_internal_name(s)[i] == s[i],
{
    assert(!spec_internal_name(s).contains('.')) by {
        if spec_internal_name(s).contains('.') {
            let i = choose|i: int| 0 <= i < spec_internal_name(s).len() && spec_internal_name(s)[i] == '.';
            assert(spec_internal_name(s)[i] == (if s[i] == '.' { '/' } else { s[i] }));
        }
    }
}

proof fn lemma_trim_start_quotes(s: Seq<char>)
    ensures
        spec_trim_start_quotes(s).len() > 0 ==> spec_trim_start_quotes(s)[0] != '"',
        spec_trim_start_quotes(s).len() <= s.len(),
        s.len() > 0 && s.last() != '"' && spec_trim_start_quotes(s).len() > 0
            ==> spec_trim_start_quotes(s).last() == s.last(),
    decreases s.len(),
{
    if s.len() > 0 && s[0] == '"' {
        lemma_trim_start_quotes(s.drop_first());
    }
}

proof fn lemma_trim_end_quotes(s: Seq<char>)
    ensures
        spec_trim_end_quotes(s).len() > 0 ==> spec_trim_end_quotes(s).last() != '"',
        spec_trim_end_quotes(s).len() > 0 ==> spec_trim_end_quotes(s)[0] == s[0],
        spec_trim_end_quotes(s).len() <= s.len(),
    decreases s.len(),
{
    if s.len() > 0 && s.last() == '"' {
        lemma_trim_end_quotes(s.drop_last());
    }
}

/// Law: a version read from a `release` file neither starts nor ends with a quote.
pub proof fn law_version_is_unquoted(s: Seq<char>)
    ensures
        spec_release_version(s) matches Some(v) ==> v.len() == 0 || (v[0] != '"' && v.last()
            != '"'),
    decreases s.len(),
{
    if s.len() > 0 {
        let (raw, rest, ended) = spec_split_line(s);
        let line = spec_strip_cr(raw, ended);
        if line.len() >= 13 && line.take(13) == spec_version_key() {
            let u = line.skip(13);
            lemma_trim_start_quotes(u);
            lemma_trim_end_quotes(spec_trim_start_quotes(u));
        } else if rest.len() < s.len() {
            law_version_is_unquoted(rest);
        }
    }
}

} // verus!
