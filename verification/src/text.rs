//! Small verified helpers on strings and on sequences of names.
use vstd::prelude::*;
use vstd::string::*;
use vstd::utf8::*;

verus! {

/// Content equality of two string slices.
pub fn str_eq(a: &str, b: &str) -> (r: bool)
    ensures
        r == (a@ == b@),
{
    let ab = a.as_bytes();
    let bb = b.as_bytes();
    proof {
        encode_utf8_decode_utf8(a@);
        encode_utf8_decode_utf8(b@);
    }
    if ab.len() != bb.len() {
        return false;
    }
    let n: usize = ab.len();
    let mut i: usize = 0;
    while i < n
        invariant
            0 <= i <= n,
            n == ab@.len(),
            n == bb@.len(),
            ab@ == encode_utf8(a@),
            bb@ == encode_utf8(b@),
            forall|k: int| 0 <= k < i ==> ab@[k] == bb@[k],
        decreases n - i,
    {
        if ab[i] != bb[i] {
            return false;
        }
        i += 1;
    }
    assert(ab@ =~= bb@);
    true
}

/// The first position at or after `from` whose entry equals `name`.
pub open spec fn index_of_from(keys: Seq<Seq<char>>, name: Seq<char>, from: int) -> Option<int>
    decreases keys.len() - from,
{
    if from < 0 || from >= keys.len() {
        None
    } else if keys[from] == name {
        Some(from)
    } else {
        index_of_from(keys, name, from + 1)
    }
}

/// The first position of `name` among `keys`.
pub open spec fn index_of(keys: Seq<Seq<char>>, name: Seq<char>) -> Option<int> {
    index_of_from(keys, name, 0)
}

/// What `index_of_from` finds is the first match at or after `from`.
pub proof fn lemma_index_of_from(keys: Seq<Seq<char>>, name: Seq<char>, from: int)
    requires
        0 <= from,
    ensures
        match index_of_from(keys, name, from) {
            Some(i) => from <= i < keys.len() && keys[i] == name && forall|j: int|
                from <= j < i ==> keys[j] != name,
            None => forall|j: int| from <= j < keys.len() ==> keys[j] != name,
        },
    decreases keys.len() - from,
{
    if from < keys.len() && keys[from] != name {
        lemma_index_of_from(keys, name, from + 1);
    }
}

/// What `index_of` finds is the first match.
pub proof fn lemma_index_of(keys: Seq<Seq<char>>, name: Seq<char>)
    ensures
        match index_of(keys, name) {
            Some(i) => 0 <= i < keys.len() && keys[i] == name && forall|j: int|
                0 <= j < i ==> keys[j] != name,
            None => forall|j: int| 0 <= j < keys.len() ==> keys[j] != name,
        },
{
    lemma_index_of_from(keys, name, 0);
}

/// The views of a vector of strings.
pub open spec fn string_views(v: Seq<String>) -> Seq<Seq<char>> {
    v.map_values(|s: String| s@)
}

/// Position of the first string in `names` that equals `name`.
pub fn find_name(names: &Vec<String>, name: &str) -> (r: Option<usize>)
    ensures
        match r {
            Some(i) => index_of(string_views(names@), name@) == Some(i as int),
            None => index_of(string_views(names@), name@).is_none(),
        },
{
    let ghost keys = string_views(names@);
    let mut i: usize = 0;
    while i < names.len()
        invariant
            0 <= i <= names.len(),
            keys == string_views(names@),
            index_of(keys, name@) == index_of_from(keys, name@, i as int),
        decreases names.len() - i,
    {
        if str_eq(names[i].as_str(), name) {
            return Some(i);
        }
        i += 1;
    }
    None
}

/// A copy of a vector of strings.
pub fn clone_strings(v: &Vec<String>) -> (r: Vec<String>)
    ensures
        string_views(r@) == string_views(v@),
{
    let mut out: Vec<String> = Vec::new();
    let mut i: usize = 0;
    while i < v.len()
        invariant
            0 <= i <= v.len(),
            out@.len() == i,
            forall|k: int| 0 <= k < i ==> out@[k]@ == v@[k]@,
        decreases v.len() - i,
    {
        out.push(v[i].clone());
        i += 1;
    }
    assert(string_views(out@) =~= string_views(v@));
    out
}

/// The character of a decimal digit.
pub open spec fn digit_char(d: nat) -> char {
    if d == 0 {
        '0'
    } else if d == 1 {
        '1'
    } else if d == 2 {
        '2'
    } else if d == 3 {
        '3'
    } else if d == 4 {
        '4'
    } else if d == 5 {
        '5'
    } else if d == 6 {
        '6'
    } else if d == 7 {
        '7'
    } else if d == 8 {
        '8'
    } else {
        '9'
    }
}

/// The decimal digits of a number, without leading zeros.
pub open spec fn decimal_text(n: nat) -> Seq<char>
    decreases n,
{
    if n < 10 {
        seq![digit_char(n)]
    } else {
        decimal_text(n / 10).push(digit_char(n % 10))
    }
}

/// The text of one decimal digit.
fn digit_str(d: u64) -> (r: &'static str)
    requires
        d < 10,
    ensures
        r@ == seq![digit_char(d as nat)],
{
    proof {
        reveal_strlit("0");
        reveal_strlit("1");
        reveal_strlit("2");
        reveal_strlit("3");
        reveal_strlit("4");
        reveal_strlit("5");
        reveal_strlit("6");
        reveal_strlit("7");
        reveal_strlit("8");
        reveal_strlit("9");
    }
    let r: &'static str = if d == 0 {
        "0"
    } else if d == 1 {
        "1"
    } else if d == 2 {
        "2"
    } else if d == 3 {
        "3"
    } else if d == 4 {
        "4"
    } else if d == 5 {
        "5"
    } else if d == 6 {
        "6"
    } else if d == 7 {
        "7"
    } else if d == 8 {
        "8"
    } else {
        "9"
    };
    assert(r@ =~= seq![digit_char(d as nat)]);
    r
}

/// The decimal digits of `n`.
pub fn u64_text(n: u64) -> (r: String)
    ensures
        r@ == decimal_text(n as nat),
    decreases n,
{
    if n < 10 {
        String::from_str(digit_str(n))
    } else {
        let mut text: String = u64_text(n / 10);
        let ghost before = text@;
        text.append(digit_str(n % 10));
        assert(text@ =~= before.push(digit_char((n % 10) as nat)));
        text
    }
}

} // verus!
