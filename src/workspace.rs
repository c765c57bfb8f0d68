//! Names of the ephemeral two-slot workspaces in which archives are unpacked
//! and compared.
use vstd::prelude::*;
use vstd::string::*;

verus! {

/// An ASCII letter or digit.
pub open spec fn is_alnum(c: char) -> bool {
    ('A' <= c && c <= 'Z') || ('a' <= c && c <= 'z') || ('0' <= c && c <= '9')
}

/// The prefix of every workspace directory name.
pub open spec fn workspace_prefix() -> Seq<char> {
    "pkg-diff-"@
}

/// The number of random characters in a workspace name.
pub const SUFFIX_LEN: usize = 12;

/// A well-formed workspace directory name: the prefix and twelve ASCII
/// letters or digits.
pub open spec fn is_workspace_name(s: Seq<char>) -> bool {
    &&& s.len() == workspace_prefix().len() + SUFFIX_LEN
    &&& s.subrange(0, workspace_prefix().len() as int) == workspace_prefix()
    &&& forall|i: int| workspace_prefix().len() <= i < s.len() ==> is_alnum(#[trigger] s[i])
}

/// Relies on rand::thread_rng and rand's `Alphanumeric` distribution, whose
/// samples are bytes of the ASCII letters and digits.
#[verifier::external_body]
fn random_alphanumeric() -> (r: u8)
    ensures
        is_alnum(r as char),
{
    rand::Rng::sample(&mut rand::thread_rng(), rand::distributions::Alphanumeric)
}

/// The one-character string of an ASCII letter or digit.
pub fn alnum_str(b: u8) -> (r: &'static str)
    requires
        is_alnum(b as char),
    ensures
        r@ == seq![b as char],
{
    let upper = "ABCDEFGHIJKLMNOPQRSTUVWXYZ";
    let lower = "abcdefghijklmnopqrstuvwxyz";
    let digits = "0123456789";
    proof {
        reveal_strlit("ABCDEFGHIJKLMNOPQRSTUVWXYZ");
        reveal_strlit("abcdefghijklmnopqrstuvwxyz");
        reveal_strlit("0123456789");
        assert(upper@ =~= seq![
            'A', 'B', 'C', 'D', 'E', 'F', 'G', 'H', 'I', 'J', 'K', 'L', 'M',
            'N', 'O', 'P', 'Q', 'R', 'S', 'T', 'U', 'V', 'W', 'X', 'Y', 'Z',
        ]);
        assert(lower@ =~= seq![
            'a', 'b', 'c', 'd', 'e', 'f', 'g', 'h', 'i', 'j', 'k', 'l', 'm',
            'n', 'o', 'p', 'q', 'r', 's', 't', 'u', 'v', 'w', 'x', 'y', 'z',
        ]);
        assert(digits@ =~= seq!['0', '1', '2', '3', '4', '5', '6', '7', '8', '9']);
        assert(forall|k: int| 0 <= k < 26 ==> #[trigger] upper@[k] == (65 + k) as char);
        assert(forall|k: int| 0 <= k < 26 ==> #[trigger] lower@[k] == (97 + k) as char);
        assert(forall|k: int| 0 <= k < 10 ==> #[trigger] digits@[k] == (48 + k) as char);
    }
    if 65 <= b && b <= 90 {
        let r = upper.substring_ascii((b - 65) as usize, (b - 64) as usize);
        assert(r@ =~= seq![b as char]);
        r
    } else if 97 <= b && b <= 122 {
        let r = lower.substring_ascii((b - 97) as usize, (b - 96) as usize);
        assert(r@ =~= seq![b as char]);
        r
    } else {
        let r = digits.substring_ascii((b - 48) as usize, (b - 47) as usize);
        assert(r@ =~= seq![b as char]);
        r
    }
}

/// The workspace directory name with the given suffix: `pkg-diff-` followed
/// by the suffix's characters.
pub fn workspace_name_from(suffix: &Vec<u8>) -> (r: String)
    requires
        suffix@.len() == SUFFIX_LEN,
        forall|i: int| 0 <= i < suffix@.len() ==> is_alnum(#[trigger] suffix@[i] as char),
    ensures
        r@ == workspace_prefix() + suffix@.map_values(|b: u8| b as char),
        is_workspace_name(r@),
{
    proof {
        reveal_strlit("pkg-diff-");
    }
    let mut s = String::from_str("pkg-diff-");
    let mut i: usize = 0;
    while i < suffix.len()
        invariant
            i <= suffix@.len(),
            suffix@.len() == SUFFIX_LEN,
            forall|k: int| 0 <= k < suffix@.len() ==> is_alnum(#[trigger] suffix@[k] as char),
            s@ == workspace_prefix() + suffix@.take(i as int).map_values(|b: u8| b as char),
        decreases suffix@.len() - i,
    {
        let ghost before = s@;
        s.append(alnum_str(suffix[i]));
        assert(suffix@.take(i + 1).map_values(|b: u8| b as char) =~= suffix@.take(i as int).map_values(
            |b: u8| b as char,
        ).push(suffix@[i as int] as char));
        assert(s@ =~= workspace_prefix() + suffix@.take(i + 1).map_values(|b: u8| b as char));
        i = i + 1;
    }
    assert(suffix@.take(suffix@.len() as int) =~= suffix@);
    let ghost full = workspace_prefix() + suffix@.map_values(|b: u8| b as char);
    assert(full.subrange(0, workspace_prefix().len() as int) =~= workspace_prefix());
    assert forall|k: int| workspace_prefix().len() <= k < full.len() implies is_alnum(#[trigger] full[k]) by {
        assert(full[k] == suffix@[k - workspace_prefix().len()] as char);
    }
    s
}

/// A fresh workspace directory name: `pkg-diff-` followed by twelve ASCII
/// letters and digits drawn at random.
pub fn workspace_name() -> (r: String)
    ensures
        is_workspace_name(r@),
{
    let mut suffix: Vec<u8> = Vec::new();
    let mut i: usize = 0;
    while i < SUFFIX_LEN
        invariant
            i <= SUFFIX_LEN,
            suffix@.len() == i,
            forall|k: int| 0 <= k < suffix@.len() ==> is_alnum(#[trigger] suffix@[k] as char),
        decreases SUFFIX_LEN - i,
    {
        suffix.push(random_alphanumeric());
        i = i + 1;
    }
    workspace_name_from(&suffix)
}

} // verus!
