//! Doc-comment text: the hidden marker, and small text conversions.
use vstd::prelude::*;

verus! {

/// The characters with the Unicode `White_Space` property.
pub open spec fn is_white_space(c: char) -> bool {
    let u = c as u32;
    (0x9 <= u <= 0xd) || u == 0x20 || u == 0x85 || u == 0xa0 || u == 0x1680 || (0x2000 <= u <= 0x200a)
        || u == 0x2028 || u == 0x2029 || u == 0x202f || u == 0x205f || u == 0x3000
}

pub fn is_white_space_char(c: char) -> (r: bool)
    ensures
        r == is_white_space(c),
{
    let u = c as u32;
    (0x9 <= u && u <= 0xd) || u == 0x20 || u == 0x85 || u == 0xa0 || u == 0x1680 || (0x2000 <= u && u
        <= 0x200a) || u == 0x2028 || u == 0x2029 || u == 0x202f || u == 0x205f || u == 0x3000
}

/// `s` without its leading white space.
pub open spec fn trim_start(s: Seq<char>) -> Seq<char>
    decreases s.len(),
{
    if s.len() > 0 && is_white_space(s[0]) {
        trim_start(s.drop_first())
    } else {
        s
    }
}

/// The marker that hides a declaration from the documentation.
pub open spec fn hidden_marker() -> Seq<char> {
    "?doc: hidden"@
}

/// A doc comment that begins with the hidden marker once leading white space
/// is stripped.
pub open spec fn is_hidden(doc: Option<String>) -> bool {
    match doc {
        Some(d) => {
            let t = trim_start(d@);
            t.len() >= hidden_marker().len() && t.take(hidden_marker().len() as int) == hidden_marker()
        },
        None => false,
    }
}

/// Whether a declaration with this doc comment is left out of the
/// documentation.
pub fn should_skip(doc_comment: &Option<String>) -> (r: bool)
    ensures
        r == is_hidden(*doc_comment),
{
    let d = match doc_comment {
        Some(d) => d,
        None => return false,
    };
    let s = d.as_str();
    let n = s.unicode_len();
    let mut k: usize = 0;
    assert(d@.skip(0) =~= d@);
    let mut stop = false;
    while k < n && !stop
        invariant
            s@ == d@,
            n == d@.len(),
            k <= n,
            stop ==> k < n && !is_white_space(d@[k as int]),
            trim_start(d@) == trim_start(d@.skip(k as int)),
        decreases n - k, if stop { 0int } else { 1int },
    {
        let c = s.get_char(k);
        if !is_white_space_char(c) {
            stop = true;
        } else {
            assert(d@.skip(k as int)[0] == c);
            assert(d@.skip(k as int).drop_first() =~= d@.skip(k + 1));
            k += 1;
        }
    }
    let ghost t = d@.skip(k as int);
    assert(trim_start(t) == t) by {
        if t.len() > 0 {
            assert(t[0] == d@[k as int]);
        }
    }
    let marker = "?doc: hidden";
    let m = marker.unicode_len();
    if n - k < m {
        return false;
    }
    let mut j: usize = 0;
    while j < m
        invariant
            n == d@.len(),
            m == marker@.len(),
            s@ == d@,
            trim_start(d@) == t,
            *doc_comment == Some(*d),
            marker@ == hidden_marker(),
            k + m <= n,
            j <= m,
            t == d@.skip(k as int),
            t.take(j as int) == marker@.take(j as int),
        decreases m - j,
    {
        let x = s.get_char(k + j);
        let y = marker.get_char(j);
        if x != y {
            assert(t.take(m as int)[j as int] == x);
            assert(t.take(m as int) != marker@);
            return false;
        }
        assert(t.take(j + 1) =~= t.take(j as int).push(t[j as int]));
        assert(marker@.take(j + 1) =~= marker@.take(j as int).push(marker@[j as int]));
        j += 1;
    }
    assert(marker@.take(m as int) =~= marker@);
    true
}

/// The text of an optional doc comment; empty when there is none.
pub open spec fn doc_text(doc: Option<String>) -> Seq<char> {
    match doc {
        Some(d) => d@,
        None => Seq::empty(),
    }
}

pub fn doc_string(doc: &Option<String>) -> (r: String)
    ensures
        r@ == doc_text(*doc),
{
    match doc {
        Some(d) => d.clone(),
        None => String::new(),
    }
}

/// The decimal digit `d`.
pub open spec fn digit_text(d: nat) -> Seq<char> {
    if d == 0 {
        "0"@
    } else if d == 1 {
        "1"@
    } else if d == 2 {
        "2"@
    } else if d == 3 {
        "3"@
    } else if d == 4 {
        "4"@
    } else if d == 5 {
        "5"@
    } else if d == 6 {
        "6"@
    } else if d == 7 {
        "7"@
    } else if d == 8 {
        "8"@
    } else {
        "9"@
    }
}

/// `n` in decimal, without leading zeros.
pub open spec fn decimal_text(n: nat) -> Seq<char>
    decreases n,
{
    if n < 10 {
        digit_text(n)
    } else {
        decimal_text(n / 10) + digit_text(n % 10)
    }
}

fn digit_str(d: u64) -> (r: &'static str)
    requires
        d < 10,
    ensures
        r@ == digit_text(d as nat),
{
    if d == 0 {
        "0"
    } else if d == 1 {
        "1"
    } else if d == 2 {
        "2"
    } else if d == 3 {
        "3"
    } else if d == 4 {
        "4"
    } else if d == 5 {
        "5"
    } else if d == 6 {
        "6"
    } else if d == 7 {
        "7"
    } else if d == 8 {
        "8"
    } else {
        "9"
    }
}

pub fn decimal(n: u64) -> (r: String)
    ensures
        r@ == decimal_text(n as nat),
    decreases n,
{
    if n < 10 {
        digit_str(n).to_string()
    } else {
        let mut s = decimal(n / 10);
        s.append(digit_str(n % 10));
        s
    }
}

} // verus!
