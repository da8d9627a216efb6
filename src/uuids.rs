//! Universally unique identifiers.
//!
//! An identifier is 23 characters long: two letters naming its family,
//! a dot, and 20 random characters from `[0-9a-zA-Z]` (from `[0-9a-z]` for
//! projects, for compatibility with Docker image naming rules).

use vstd::prelude::*;

verus! {

/// The families of identifiers, usually the type of object identified.
#[derive(Debug, Clone, Copy, PartialEq, Eq, Structural)]
pub enum Family {
    Node,
    Document,
    File,
    Project,
    Session,
}

/// The characters of the random part of identifiers.
pub const CHARACTERS: &'static str = "0123456789abcdefghijklmnopqrstuvwxyzABCDEFGHIJKLMNOPQRSTUVWXYZ";

/// The number of random characters of an identifier.
pub const RANDOM_LENGTH: usize = 20;

/// The two letters that start the identifiers of a family.
pub open spec fn family_prefix(f: Family) -> Seq<char> {
    match f {
        Family::Node => "no"@,
        Family::Document => "do"@,
        Family::File => "fi"@,
        Family::Project => "pr"@,
        Family::Session => "se"@,
    }
}

/// The characters that the random part of a family's identifiers uses:
/// digits and lower-case letters for projects, digits and letters of both
/// cases otherwise.
pub open spec fn alphabet_of(f: Family) -> Seq<char> {
    match f {
        Family::Project => CHARACTERS@.take(36),
        _ => CHARACTERS@,
    }
}

impl Family {
    /// The two letters that start the identifiers of this family.
    pub fn prefix(&self) -> (r: String)
        ensures
            r@ == family_prefix(*self),
    {
        match self {
            Family::Node => "no".to_owned(),
            Family::Document => "do".to_owned(),
            Family::File => "fi".to_owned(),
            Family::Project => "pr".to_owned(),
            Family::Session => "se".to_owned(),
        }
    }
}

/// The characters of `alphabet_of(f)`.
fn alphabet(f: Family) -> (r: Vec<char>)
    ensures
        r@ == alphabet_of(f),
        forall|i: int| 0 <= i < r@.len() ==> (#[trigger] r@[i] as u32) < 128,
        1 <= r@.len() <= 62,
{
    proof {
        reveal_strlit("0123456789abcdefghijklmnopqrstuvwxyzABCDEFGHIJKLMNOPQRSTUVWXYZ");
    }
    let n: usize = match f {
        Family::Project => 36,
        _ => 62,
    };
    let mut out: Vec<char> = Vec::new();
    let mut i: usize = 0;
    while i < n
        invariant
            i <= n,
            n <= 62,
            CHARACTERS@.len() == 62,
            out@ == CHARACTERS@.take(i as int),
            forall|j: int| 0 <= j < 62 ==> (#[trigger] CHARACTERS@[j] as u32) < 128,
        decreases n - i,
    {
        out.push(CHARACTERS.get_char(i));
        i = i + 1;
        assert(out@ =~= CHARACTERS@.take(i as int));
    }
    assert(CHARACTERS@.take(62) =~= CHARACTERS@);
    out
}

/// Relies on `nanoid::format` with the random bytes of
/// `nanoid::rngs::default`: `size` characters, each drawn from `alphabet`.
/// With an ASCII alphabet of at most 255 characters and `size` at least 1
/// it returns; each character that it keeps is one of the alphabet.
#[verifier::external_body]
fn random_chars(alphabet: &Vec<char>, size: usize) -> (r: String)
    requires
        1 <= alphabet@.len() <= 255,
        forall|i: int| 0 <= i < alphabet@.len() ==> (#[trigger] alphabet@[i] as u32) < 128,
        1 <= size <= 1000,
    ensures
        r@.len() == size,
        forall|i: int| 0 <= i < r@.len() ==> alphabet@.contains(#[trigger] r@[i]),
{
    nanoid::format(nanoid::rngs::default, alphabet, size)
}

/// Generates a universally unique identifier of family `family`.
pub fn generate(family: Family) -> (r: String)
    ensures
        r@.len() == 23,
        r@.take(2) == family_prefix(family),
        r@[2] == '.',
        forall|i: int| 3 <= i < 23 ==> alphabet_of(family).contains(#[trigger] r@[i]),
{
    let chars = alphabet(family);
    let random = random_chars(&chars, RANDOM_LENGTH);
    let prefix = family.prefix();
    proof {
        reveal_strlit("no");
        reveal_strlit("do");
        reveal_strlit("fi");
        reveal_strlit("pr");
        reveal_strlit("se");
        reveal_strlit(".");
    }
    let id = prefix.concat(".").concat(random.as_str());
    assert(id@.take(2) =~= family_prefix(family));
    proof {
        assert forall|i: int| 3 <= i < 23 implies alphabet_of(family).contains(#[trigger] id@[i]) by {
            assert(id@[i] == random@[i - 3]);
        }
    }
    id
}

} // verus!
