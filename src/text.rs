use vstd::prelude::*;

verus! {

/// Relies on `String`'s `FromIterator<char>`: the string made of the given
/// characters, in order.
#[verifier::external_body]
fn string_of(chars: &Vec<char>) -> (r: String)
    ensures
        r@ == chars@,
{
    chars.iter().collect()
}

/// The string of the characters `chars[from..to]`.
pub fn substring(chars: &Vec<char>, from: usize, to: usize) -> (r: String)
    requires
        from <= to <= chars@.len(),
    ensures
        r@ == chars@.subrange(from as int, to as int),
{
    let mut part: Vec<char> = Vec::new();
    let mut i: usize = from;
    while i < to
        invariant
            from <= i <= to,
            to <= chars@.len(),
            part@ == chars@.subrange(from as int, i as int),
        decreases to - i,
    {
        part.push(chars[i]);
        i = i + 1;
        proof {
            assert(part@ =~= chars@.subrange(from as int, i as int));
        }
    }
    string_of(&part)
}

/// White space in the sense of Unicode's `White_Space` property.
pub open spec fn is_space(c: char) -> bool {
    let u = c as u32;
    (0x09 <= u <= 0x0d) || u == 0x20 || u == 0x85 || u == 0xa0 || u == 0x1680 || (0x2000 <= u
        <= 0x200a) || u == 0x2028 || u == 0x2029 || u == 0x202f || u == 0x205f || u == 0x3000
}

fn space(c: char) -> (r: bool)
    ensures
        r == is_space(c),
{
    let u = c as u32;
    (0x09 <= u && u <= 0x0d) || u == 0x20 || u == 0x85 || u == 0xa0 || u == 0x1680 || (0x2000 <= u
        && u <= 0x200a) || u == 0x2028 || u == 0x2029 || u == 0x202f || u == 0x205f || u == 0x3000
}

/// `s` without its leading white space.
pub open spec fn trim_start(s: Seq<char>) -> Seq<char>
    decreases s.len(),
{
    if s.len() > 0 && is_space(s[0]) {
        trim_start(s.drop_first())
    } else {
        s
    }
}

/// `s` without its trailing white space.
pub open spec fn trim_end(s: Seq<char>) -> Seq<char>
    decreases s.len(),
{
    if s.len() > 0 && is_space(s.last()) {
        trim_end(s.drop_last())
    } else {
        s
    }
}

/// `s` without leading and trailing white space.
pub open spec fn trim(s: Seq<char>) -> Seq<char> {
    trim_end(trim_start(s))
}

/// Where `trim` cuts `chars[from..to]`: the bounds of what it keeps.
pub fn trim_bounds(chars: &Vec<char>, from: usize, to: usize) -> (r: (usize, usize))
    requires
        from <= to <= chars@.len(),
    ensures
        from <= r.0 <= r.1 <= to,
        chars@.subrange(r.0 as int, r.1 as int) == trim(chars@.subrange(from as int, to as int)),
{
    let ghost s = chars@.subrange(from as int, to as int);
    let mut a: usize = from;
    while a < to && space(chars[a])
        invariant
            from <= a <= to,
            to <= chars@.len(),
            trim_start(s) == trim_start(chars@.subrange(a as int, to as int)),
        decreases to - a,
    {
        proof {
            assert(chars@.subrange(a as int, to as int).drop_first() =~= chars@.subrange(
                a + 1,
                to as int,
            ));
        }
        a = a + 1;
    }
    let ghost t = chars@.subrange(a as int, to as int);
    proof {
        assert(trim_start(t) == t);
    }
    let mut b: usize = to;
    while b > a && space(chars[b - 1])
        invariant
            from <= a <= b <= to,
            to <= chars@.len(),
            trim_end(t) == trim_end(chars@.subrange(a as int, b as int)),
        decreases b - a,
    {
        proof {
            assert(chars@.subrange(a as int, b as int).drop_last() =~= chars@.subrange(
                a as int,
                b - 1,
            ));
        }
        b = b - 1;
    }
    (a, b)
}

/// The first position in `from..to` where `c` stands in `s`, if any.
pub open spec fn find_in(s: Seq<char>, c: char, from: int, to: int) -> Option<int>
    decreases to - from,
{
    if from < 0 || from >= to || from >= s.len() {
        None
    } else if s[from] == c {
        Some(from)
    } else {
        find_in(s, c, from + 1, to)
    }
}

pub proof fn lemma_find_in_bounds(s: Seq<char>, c: char, from: int, to: int)
    ensures
        find_in(s, c, from, to) matches Some(i) ==> from <= i < to && i < s.len() && s[i] == c,
    decreases to - from,
{
    if 0 <= from < to && from < s.len() && s[from] != c {
        lemma_find_in_bounds(s, c, from + 1, to);
    }
}

/// The first position in `from..to` where `c` stands in `chars`.
pub fn find_char(chars: &Vec<char>, c: char, from: usize, to: usize) -> (r: Option<usize>)
    requires
        from <= to <= chars@.len(),
    ensures
        match r {
            Some(i) => find_in(chars@, c, from as int, to as int) == Some(i as int),
            None => find_in(chars@, c, from as int, to as int) is None,
        },
        r matches Some(i) ==> from <= i < to,
{
    let mut i: usize = from;
    while i < to
        invariant
            from <= i <= to,
            to <= chars@.len(),
            find_in(chars@, c, from as int, to as int) == find_in(chars@, c, i as int, to as int),
        decreases to - i,
    {
        if chars[i] == c {
            return Some(i);
        }
        i = i + 1;
    }
    None
}

} // verus!
