use vstd::prelude::*;

verus! {

broadcast use vstd::string::group_string_axioms;

/// `String::push` appends one character to the end of the string.
pub assume_specification[ std::string::String::push ](s: &mut std::string::String, c: char)
    ensures
        final(s)@ == old(s)@.push(c),
;

/// An ASCII lower-case letter becomes its upper-case letter; any other
/// character stays as it is.
pub open spec fn upper_char(c: char) -> char {
    if 'a' <= c && c <= 'z' {
        ((c as u8 - 32) as u8) as char
    } else {
        c
    }
}

pub fn to_upper_char(c: char) -> (r: char)
    ensures
        r == upper_char(c),
{
    if 'a' <= c && c <= 'z' {
        ((c as u8) - 32) as char
    } else {
        c
    }
}

/// The text with every ASCII lower-case letter replaced by its upper-case letter.
pub open spec fn ascii_upper(s: Seq<char>) -> Seq<char> {
    Seq::new(s.len(), |i: int| upper_char(s[i]))
}

pub fn to_ascii_upper(s: &str) -> (r: String)
    ensures
        r@ == ascii_upper(s@),
{
    let mut r = String::new();
    for c in it: s.chars()
        invariant
            it.seq() == s@,
            r@ == ascii_upper(s@.take(it.index() as int)),
    {
        r.push(to_upper_char(c));
        assert(r@ =~= ascii_upper(s@.take(it.index() + 1)));
    }
    assert(s@.take(s@.len() as int) =~= s@);
    r
}

pub open spec fn is_ident_start(c: char) -> bool {
    ('a' <= c && c <= 'z') || ('A' <= c && c <= 'Z') || c == '_'
}

pub open spec fn is_ident_char(c: char) -> bool {
    is_ident_start(c) || ('0' <= c && c <= '9')
}

/// A key that can stand as the name of a constant: not empty, ASCII letters,
/// digits and `_` only, and no digit in front.
pub open spec fn is_identifier(s: Seq<char>) -> bool {
    &&& s.len() > 0
    &&& is_ident_start(s[0])
    &&& forall|i: int| 0 <= i < s.len() ==> is_ident_char(#[trigger] s[i])
}

pub fn check_identifier(s: &str) -> (ok: bool)
    ensures
        ok == is_identifier(s@),
{
    let mut first = true;
    let mut ok = true;
    for c in it: s.chars()
        invariant
            it.seq() == s@,
            first == (it.index() == 0),
            ok == (forall|i: int| 0 <= i < it.index() ==> is_ident_char(#[trigger] s@[i])
                && (it.index() > 0 ==> is_ident_start(s@[0]))),
    {
        let letter = ('a' <= c && c <= 'z') || ('A' <= c && c <= 'Z') || c == '_';
        let digit = '0' <= c && c <= '9';
        if first {
            ok = letter;
        } else {
            ok = ok && (letter || digit);
        }
        first = false;
    }
    ok && !first
}

/// The upper-cased form of an identifier is an identifier.
pub proof fn lemma_upper_identifier(s: Seq<char>)
    requires
        is_identifier(s),
    ensures
        is_identifier(ascii_upper(s)),
{
    let u = ascii_upper(s);
    assert forall|i: int| 0 <= i < u.len() implies is_ident_char(#[trigger] u[i]) by {
        assert(is_ident_char(s[i]));
    }
}

pub open spec fn is_line_break(c: char) -> bool {
    c == '\n' || c == '\r'
}

/// A text that stays on the line it is written on.
pub open spec fn is_one_line(s: Seq<char>) -> bool {
    forall|i: int| 0 <= i < s.len() ==> !is_line_break(#[trigger] s[i])
}

pub fn check_one_line(s: &str) -> (ok: bool)
    ensures
        ok == is_one_line(s@),
{
    let mut ok = true;
    for c in it: s.chars()
        invariant
            it.seq() == s@,
            ok == is_one_line(s@.take(it.index() as int)),
    {
        if c == '\n' || c == '\r' {
            ok = false;
        }
        proof {
            let a = s@.take(it.index() as int);
            let b = s@.take(it.index() + 1);
            assert(b[it.index() as int] == c);
            assert(forall|i: int| 0 <= i < a.len() ==> a[i] == b[i]);
            if is_one_line(b) {
                assert forall|i: int| 0 <= i < a.len() implies !is_line_break(#[trigger] a[i]) by {
                    assert(!is_line_break(b[i]));
                }
            }
        }
    }
    assert(s@.take(s@.len() as int) =~= s@);
    ok
}

/// The text with every line break replaced by a space.
pub open spec fn flatten_line(s: Seq<char>) -> Seq<char> {
    Seq::new(s.len(), |i: int| if is_line_break(s[i]) { ' ' } else { s[i] })
}

pub fn to_one_line(s: &str) -> (r: String)
    ensures
        r@ == flatten_line(s@),
        is_one_line(r@),
{
    let mut r = String::new();
    for c in it: s.chars()
        invariant
            it.seq() == s@,
            r@ == flatten_line(s@.take(it.index() as int)),
    {
        if c == '\n' || c == '\r' {
            r.push(' ');
        } else {
            r.push(c);
        }
        assert(r@ =~= flatten_line(s@.take(it.index() + 1)));
    }
    assert(s@.take(s@.len() as int) =~= s@);
    r
}

/// What one character of a value becomes inside a quoted literal.
pub open spec fn escape_char(c: char) -> Seq<char> {
    if c == '\\' {
        seq!['\\', '\\']
    } else if c == '"' {
        seq!['\\', '"']
    } else if c == '\n' {
        seq!['\\', 'n']
    } else if c == '\r' {
        seq!['\\', 'r']
    } else {
        seq![c]
    }
}

/// The text with backslashes, double quotes and line breaks written as
/// two-character escapes.
pub open spec fn escape_text(s: Seq<char>) -> Seq<char>
    decreases s.len(),
{
    if s.len() == 0 {
        Seq::empty()
    } else {
        escape_text(s.drop_last()) + escape_char(s.last())
    }
}

pub fn escape(s: &str) -> (r: String)
    ensures
        r@ == escape_text(s@),
        is_literal_safe(r@),
{
    let mut r = String::new();
    for c in it: s.chars()
        invariant
            it.seq() == s@,
            r@ == escape_text(s@.take(it.index() as int)),
    {
        proof {
            let b = s@.take(it.index() + 1);
            assert(b.drop_last() =~= s@.take(it.index() as int));
            assert(b.last() == c);
        }
        if c == '\\' {
            r.push('\\');
            r.push('\\');
        } else if c == '"' {
            r.push('\\');
            r.push('"');
        } else if c == '\n' {
            r.push('\\');
            r.push('n');
        } else if c == '\r' {
            r.push('\\');
            r.push('r');
        } else {
            r.push(c);
        }
        assert(r@ =~= escape_text(s@.take(it.index() + 1)));
    }
    assert(s@.take(s@.len() as int) =~= s@);
    proof {
        lemma_escape_is_literal_safe(s@);
    }
    r
}

/// The characters that may follow a backslash inside a quoted literal.
pub open spec fn is_escape_code(c: char) -> bool {
    c == '\\' || c == '"' || c == 'n' || c == 'r' || c == 't' || c == '0' || c == '\''
}

/// Reads a literal's body from the left. `None`: the body breaks the literal
/// (a line break, a bare double quote, or a backslash before a character that
/// is no escape code). `Some(open)`: the body is sound so far, and `open` says
/// that it ends in a backslash that still waits for its escape code.
pub open spec fn literal_scan(s: Seq<char>) -> Option<bool>
    decreases s.len(),
{
    if s.len() == 0 {
        Some(false)
    } else {
        literal_step(literal_scan(s.drop_last()), s.last())
    }
}

pub open spec fn literal_step(state: Option<bool>, c: char) -> Option<bool> {
    match state {
        None => None,
        Some(open) => if is_line_break(c) {
            None
        } else if open {
            if is_escape_code(c) {
                Some(false)
            } else {
                None
            }
        } else if c == '\\' {
            Some(true)
        } else if c == '"' {
            None
        } else {
            Some(false)
        },
    }
}

/// A value that can stand between the quotes of a literal on one line.
pub open spec fn is_literal_safe(s: Seq<char>) -> bool {
    literal_scan(s) == Some(false)
}

pub fn check_literal_safe(s: &str) -> (ok: bool)
    ensures
        ok == is_literal_safe(s@),
{
    let mut state: Option<bool> = Some(false);
    for c in it: s.chars()
        invariant
            it.seq() == s@,
            state == literal_scan(s@.take(it.index() as int)),
    {
        proof {
            let b = s@.take(it.index() + 1);
            assert(b.drop_last() =~= s@.take(it.index() as int));
            assert(b.last() == c);
        }
        state = match state {
            None => None,
            Some(open) => if c == '\n' || c == '\r' {
                None
            } else if open {
                if c == '\\' || c == '"' || c == 'n' || c == 'r' || c == 't' || c == '0' || c
                    == '\'' {
                    Some(false)
                } else {
                    None
                }
            } else if c == '\\' {
                Some(true)
            } else if c == '"' {
                None
            } else {
                Some(false)
            },
        };
    }
    assert(s@.take(s@.len() as int) =~= s@);
    match state {
        Some(open) => !open,
        None => false,
    }
}

/// Appending one character to a body moves the scan by one step.
pub proof fn lemma_scan_push(s: Seq<char>, c: char)
    ensures
        literal_scan(s.push(c)) == literal_step(literal_scan(s), c),
{
    assert(s.push(c).drop_last() =~= s);
}

/// An escaped text is always safe inside a quoted literal.
pub proof fn lemma_escape_is_literal_safe(s: Seq<char>)
    ensures
        is_literal_safe(escape_text(s)),
    decreases s.len(),
{
    if s.len() > 0 {
        let e = escape_text(s.drop_last());
        let c = s.last();
        lemma_escape_is_literal_safe(s.drop_last());
        if c == '\\' || c == '"' || c == '\n' || c == '\r' {
            let x = escape_char(c)[1];
            lemma_scan_push(e, '\\');
            lemma_scan_push(e.push('\\'), x);
            assert(e + escape_char(c) =~= e.push('\\').push(x));
        } else {
            lemma_scan_push(e, c);
            assert(e + escape_char(c) =~= e.push(c));
        }
    }
}

/// A text without backslash, double quote or line break is its own escaped form.
pub proof fn lemma_escape_plain(s: Seq<char>)
    requires
        forall|i: int|
            0 <= i < s.len() ==> #[trigger] s[i] != '\\' && s[i] != '"' && !is_line_break(s[i]),
    ensures
        escape_text(s) == s,
    decreases s.len(),
{
    if s.len() > 0 {
        lemma_escape_plain(s.drop_last());
        assert(s.drop_last() + seq![s.last()] =~= s);
    }
}

/// The text without the line breaks at its end.
pub open spec fn trim_line_end(s: Seq<char>) -> Seq<char>
    decreases s.len(),
{
    if s.len() > 0 && is_line_break(s.last()) {
        trim_line_end(s.drop_last())
    } else {
        s
    }
}

pub fn trim_end(s: &str) -> (r: &str)
    ensures
        r@ == trim_line_end(s@),
{
    let mut end: usize = 0;
    let mut n: usize = 0;
    let total = s.unicode_len();
    for c in it: s.chars()
        invariant
            it.seq() == s@,
            total == s@.len(),
            n == it.index(),
            end <= n,
            trim_line_end(s@.take(n as int)) == s@.take(end as int),
    {
        proof {
            let b = s@.take(n + 1);
            assert(b.drop_last() =~= s@.take(n as int));
            assert(b.last() == c);
        }
        n += 1;
        if !(c == '\n' || c == '\r') {
            end = n;
        }
    }
    assert(s@.take(s@.len() as int) =~= s@);
    let r = s.substring_char(0, end);
    assert(r@ =~= s@.take(end as int));
    r
}

/// The characters of a text, one by one.
pub fn chars_of(s: &str) -> (v: Vec<char>)
    ensures
        v@ == s@,
{
    let mut v: Vec<char> = Vec::new();
    for c in it: s.chars()
        invariant
            it.seq() == s@,
            v@ == s@.take(it.index() as int),
    {
        v.push(c);
        assert(v@ =~= s@.take(it.index() + 1));
    }
    assert(s@.take(s@.len() as int) =~= s@);
    v
}

/// The text ends with the other text.
pub open spec fn ends_with(s: Seq<char>, suffix: Seq<char>) -> bool {
    s.len() >= suffix.len() && s.skip(s.len() - suffix.len()) == suffix
}

pub fn has_suffix(s: &Vec<char>, suffix: &Vec<char>) -> (r: bool)
    ensures
        r == ends_with(s@, suffix@),
{
    if s.len() < suffix.len() {
        return false;
    }
    let start = s.len() - suffix.len();
    let mut i: usize = 0;
    while i < suffix.len()
        invariant
            i <= suffix.len(),
            start + suffix.len() == s.len(),
            forall|j: int| 0 <= j < i ==> s@[start + j] == suffix@[j],
        decreases suffix.len() - i,
    {
        if s[start + i] != suffix[i] {
            assert(s@.skip(start as int)[i as int] != suffix@[i as int]);
            return false;
        }
        i += 1;
    }
    assert(s@.skip(start as int) =~= suffix@);
    true
}

/// A value that is safe inside a quoted literal holds no line break.
pub proof fn lemma_literal_safe_one_line(s: Seq<char>)
    requires
        literal_scan(s) is Some,
    ensures
        is_one_line(s),
    decreases s.len(),
{
    if s.len() > 0 {
        let front = s.drop_last();
        lemma_literal_safe_one_line(front);
        assert forall|i: int| 0 <= i < s.len() implies !is_line_break(#[trigger] s[i]) by {
            if i < front.len() {
                assert(front[i] == s[i]);
            }
        }
    }
}

/// Two texts make one line when put together exactly where each of them does.
pub proof fn lemma_one_line_concat(a: Seq<char>, b: Seq<char>)
    ensures
        is_one_line(a + b) <==> is_one_line(a) && is_one_line(b),
{
    let ab = a + b;
    if is_one_line(ab) {
        assert forall|i: int| 0 <= i < a.len() implies !is_line_break(#[trigger] a[i]) by {
            assert(ab[i] == a[i]);
        }
        assert forall|i: int| 0 <= i < b.len() implies !is_line_break(#[trigger] b[i]) by {
            assert(ab[a.len() + i] == b[i]);
        }
    }
    if is_one_line(a) && is_one_line(b) {
        assert forall|i: int| 0 <= i < ab.len() implies !is_line_break(#[trigger] ab[i]) by {
            if i < a.len() {
                assert(ab[i] == a[i]);
            } else {
                assert(ab[i] == b[i - a.len()]);
            }
        }
    }
}

} // verus!
