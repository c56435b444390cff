//! The rules that a proposed name must pass.
use vstd::prelude::*;
use vstd::string::*;

verus! {

/// Shortest accepted name, in characters.
pub const MIN_NAME_LEN: usize = 3;

/// Longest accepted name, in characters.
pub const MAX_NAME_LEN: usize = 20;

/// Why a proposed name was refused.
#[derive(Clone, Copy, Debug, PartialEq, Eq, Structural)]
pub enum NameError {
    /// Fewer than three or more than twenty characters.
    Length,
    /// A character other than `a` to `z`.
    Charset,
    /// The name is kept back for later use.
    Reserved,
}

pub open spec fn is_lower_letter(c: char) -> bool {
    'a' <= c && c <= 'z'
}

pub open spec fn all_lower_letters(s: Seq<char>) -> bool {
    forall|i: int| 0 <= i < s.len() ==> is_lower_letter(#[trigger] s[i])
}

pub open spec fn length_ok(s: Seq<char>) -> bool {
    MIN_NAME_LEN <= s.len() <= MAX_NAME_LEN
}

/// The names that no event may hand out.
pub open spec fn reserved_names() -> Seq<Seq<char>> {
    seq![
        seq!['s', 'a', 'k', 'u', 'r', 'a'],
        seq!['c', 'h', 'e', 'r', 'r', 'y'],
        seq!['b', 'a', 'm', 'b', 'o', 'o'],
        seq!['m', 'a', 'p', 'l', 'e'],
        seq!['p', 'i', 'n', 'e'],
        seq!['p', 'a', 'l', 'm'],
        seq!['c', 'e', 'd', 'a', 'r'],
    ]
}

pub open spec fn is_reserved(s: Seq<char>) -> bool {
    reserved_names().contains(s)
}

/// The verdict on a proposed name: length first, then the characters, then
/// the reserved list.
pub open spec fn name_verdict(s: Seq<char>) -> Result<(), NameError> {
    if !length_ok(s) {
        Err(NameError::Length)
    } else if !all_lower_letters(s) {
        Err(NameError::Charset)
    } else if is_reserved(s) {
        Err(NameError::Reserved)
    } else {
        Ok(())
    }
}

pub open spec fn valid_name(s: Seq<char>) -> bool {
    name_verdict(s) is Ok
}

/// What `str::to_lowercase` makes of a string.
pub uninterp spec fn lower_of(s: Seq<char>) -> Seq<char>;

/// Relies on `str::to_lowercase`: the lowercase form of the text, which
/// depends on the characters alone; letters `a` to `z` are already lowercase
/// and come back unchanged.
#[verifier::external_body]
pub(crate) fn lowercase(s: &str) -> (r: String)
    ensures
        r@ == lower_of(s@),
        all_lower_letters(s@) ==> r@ == s@,
{
    s.to_lowercase()
}

/// Whether two texts hold the same characters.
pub fn same_text(a: &str, b: &str) -> (r: bool)
    ensures
        r == (a@ == b@),
{
    let n = a.unicode_len();
    if n != b.unicode_len() {
        return false;
    }
    let mut i: usize = 0;
    while i < n
        invariant
            n == a@.len(),
            n == b@.len(),
            i <= n,
            forall|j: int| 0 <= j < i ==> a@[j] == b@[j],
        decreases n - i,
    {
        if a.get_char(i) != b.get_char(i) {
            return false;
        }
        i += 1;
    }
    assert(a@ =~= b@);
    true
}

fn reserved_list() -> (r: Vec<&'static str>)
    ensures
        r@.len() == reserved_names().len(),
        forall|i: int| 0 <= i < r@.len() ==> (#[trigger] r@[i])@ == reserved_names()[i],
{
    let r = vec!["sakura", "cherry", "bamboo", "maple", "pine", "palm", "cedar"];
    proof {
        reveal_strlit("sakura");
        reveal_strlit("cherry");
        reveal_strlit("bamboo");
        reveal_strlit("maple");
        reveal_strlit("pine");
        reveal_strlit("palm");
        reveal_strlit("cedar");
    }
    assert(r@[0]@ =~= reserved_names()[0]);
    assert(r@[1]@ =~= reserved_names()[1]);
    assert(r@[2]@ =~= reserved_names()[2]);
    assert(r@[3]@ =~= reserved_names()[3]);
    assert(r@[4]@ =~= reserved_names()[4]);
    assert(r@[5]@ =~= reserved_names()[5]);
    assert(r@[6]@ =~= reserved_names()[6]);
    r
}

/// Whether the name is on the reserved list.
pub fn is_reserved_name(name: &str) -> (r: bool)
    ensures
        r == is_reserved(name@),
{
    let list = reserved_list();
    let mut i: usize = 0;
    while i < list.len()
        invariant
            list@.len() == reserved_names().len(),
            forall|k: int| 0 <= k < list@.len() ==> (#[trigger] list@[k])@ == reserved_names()[k],
            i <= list@.len(),
            forall|k: int| 0 <= k < i ==> reserved_names()[k] != name@,
        decreases list@.len() - i,
    {
        if same_text(list[i], name) {
            assert(reserved_names()[i as int] == name@);
            return true;
        }
        i += 1;
    }
    false
}

/// Checks a proposed name: three to twenty characters, lowercase letters
/// `a` to `z` only, and not a reserved name.
pub fn validate_tree_name(name: &str) -> (r: Result<(), NameError>)
    ensures
        r == name_verdict(name@),
{
    let n = name.unicode_len();
    if n < MIN_NAME_LEN || n > MAX_NAME_LEN {
        return Err(NameError::Length);
    }
    let mut i: usize = 0;
    while i < n
        invariant
            n == name@.len(),
            length_ok(name@),
            i <= n,
            forall|j: int| 0 <= j < i ==> is_lower_letter(#[trigger] name@[j]),
        decreases n - i,
    {
        let c = name.get_char(i);
        if !('a' <= c && c <= 'z') {
            assert(!is_lower_letter(name@[i as int]));
            return Err(NameError::Charset);
        }
        i += 1;
    }
    if is_reserved_name(name) {
        return Err(NameError::Reserved);
    }
    Ok(())
}

} // verus!
