//! Account names: their syntax, their hierarchy, and the validated candidate.

use vstd::prelude::*;
use vstd::string::*;

verus! {

/// Shortest account name, in characters.
pub const MIN_NAME_LENGTH: usize = 2;

/// Longest account name, in characters.
pub const MAX_NAME_LENGTH: usize = 64;

/// A lower-case letter or a digit.
pub open spec fn is_name_char(c: char) -> bool {
    ('a' <= c && c <= 'z') || ('0' <= c && c <= '9')
}

/// One of the three characters that separate the parts of a name.
pub open spec fn is_separator(c: char) -> bool {
    c == '-' || c == '_' || c == '.'
}

/// The account-naming syntax: between two and sixty-four characters, each a
/// lower-case letter, a digit or a separator, where no separator stands first,
/// last, or directly behind another separator.
pub open spec fn well_formed_name(s: Seq<char>) -> bool {
    &&& MIN_NAME_LENGTH <= s.len() <= MAX_NAME_LENGTH
    &&& forall|i: int| 0 <= i < s.len() ==> is_name_char(#[trigger] s[i]) || is_separator(s[i])
    &&& !is_separator(s[0])
    &&& !is_separator(s[s.len() - 1])
    &&& forall|i: int| 0 < i < s.len() ==> !(is_separator(s[i - 1]) && is_separator(#[trigger] s[i]))
}

/// A name is top-level when it has no dot, and so no parent.
pub open spec fn is_top_level_name(s: Seq<char>) -> bool {
    forall|i: int| 0 <= i < s.len() ==> #[trigger] s[i] != '.'
}

/// `i` is the position of the first dot of `s`.
pub open spec fn is_first_dot(s: Seq<char>, i: int) -> bool {
    &&& 0 <= i < s.len()
    &&& s[i] == '.'
    &&& forall|j: int| 0 <= j < i ==> #[trigger] s[j] != '.'
}

/// The parent of a sub-account: what follows its first dot. A top-level name
/// has none.
pub open spec fn parent_name(s: Seq<char>) -> Option<Seq<char>> {
    if is_top_level_name(s) {
        None
    } else {
        let i = choose|i: int| is_first_dot(s, i);
        Some(s.subrange(i + 1, s.len() as int))
    }
}

/// Whatever position holds the first dot, the parent is what follows it.
pub proof fn lemma_parent_after_first_dot(s: Seq<char>, i: int)
    requires
        is_first_dot(s, i),
    ensures
        !is_top_level_name(s),
        parent_name(s) == Some(s.subrange(i + 1, s.len() as int)),
{
    let k = choose|k: int| is_first_dot(s, k);
    assert(is_first_dot(s, k));
    assert(k == i) by {
        if k < i {
            assert(s[k] == '.');
        } else if i < k {
            assert(s[i] == '.');
        }
    }
}

/// A name with a dot before `upto` has a first dot.
proof fn lemma_first_dot_exists(s: Seq<char>, upto: int)
    requires
        0 <= upto <= s.len(),
    ensures
        (forall|j: int| 0 <= j < upto ==> #[trigger] s[j] != '.') || exists|i: int|
            i < upto && is_first_dot(s, i),
    decreases upto,
{
    if upto > 0 {
        let before = upto - 1;
        lemma_first_dot_exists(s, before);
        if forall|j: int| 0 <= j < before ==> #[trigger] s[j] != '.' {
            if s[before] == '.' {
                assert(is_first_dot(s, before));
            }
        } else {
            let k = choose|k: int| k < before && is_first_dot(s, k);
            assert(k < upto && is_first_dot(s, k));
        }
    }
}

/// The parent of a sub-account is shorter than the sub-account, and where it
/// is a sub-account itself it conforms to the naming syntax as its child does:
/// every account that has to be looked up has a well-formed name.
pub proof fn lemma_parent_of_well_formed(s: Seq<char>)
    requires
        well_formed_name(s),
        !is_top_level_name(s),
    ensures
        parent_name(s).is_some(),
        parent_name(s).unwrap().len() < s.len(),
        !is_top_level_name(parent_name(s).unwrap()) ==> well_formed_name(parent_name(s).unwrap()),
{
    lemma_first_dot_exists(s, s.len() as int);
    let i = choose|i: int| i < s.len() && is_first_dot(s, i);
    lemma_parent_after_first_dot(s, i);
    let parent = s.subrange(i + 1, s.len() as int);
    assert(is_separator(s[i]));
    assert(i < s.len() - 1);
    assert forall|j: int| 0 <= j < parent.len() implies is_name_char(#[trigger] parent[j])
        || is_separator(parent[j]) by {
        assert(parent[j] == s[i + 1 + j]);
    }
    assert(parent[0] == s[i + 1]);
    assert(!is_separator(parent[0])) by {
        assert(!(is_separator(s[i + 1 - 1]) && is_separator(s[i + 1])));
    }
    assert(parent[parent.len() - 1] == s[s.len() - 1]);
    assert forall|j: int| 0 < j < parent.len() implies !(is_separator(parent[j - 1])
        && is_separator(#[trigger] parent[j])) by {
        assert(parent[j] == s[i + 1 + j]);
        assert(parent[j - 1] == s[i + 1 + j - 1]);
        assert(!(is_separator(s[i + 1 + j - 1]) && is_separator(s[i + 1 + j])));
    }
    if !is_top_level_name(parent) {
        let k = choose|k: int| 0 <= k < parent.len() && parent[k] == '.';
        assert(is_separator(parent[k]));
        assert(k != 0);
        assert(k != parent.len() - 1);
    }
}

/// Position of the first dot of `text`, if it has one.
pub fn find_first_dot(text: &str) -> (found: Option<usize>)
    ensures
        match found {
            Some(i) => is_first_dot(text@, i as int),
            None => is_top_level_name(text@),
        },
{
    let n: usize = text.unicode_len();
    let mut i: usize = 0;
    while i < n
        invariant
            n == text@.len(),
            i <= n,
            forall|j: int| 0 <= j < i ==> #[trigger] text@[j] != '.',
        decreases n - i,
    {
        if text.get_char(i) == '.' {
            return Some(i);
        }
        i += 1;
    }
    None
}

/// Whether `text` names a top-level account.
pub fn is_top_level(text: &str) -> (top: bool)
    ensures
        top == is_top_level_name(text@),
{
    match find_first_dot(text) {
        Some(i) => {
            assert(text@[i as int] == '.');
            false
        },
        None => true,
    }
}

/// The parent of `text`, if it is a sub-account.
pub fn parent_of(text: &str) -> (parent: Option<String>)
    ensures
        match parent {
            Some(p) => parent_name(text@) == Some(p@) && p@.len() < text@.len(),
            None => parent_name(text@).is_none(),
        },
{
    match find_first_dot(text) {
        Some(i) => {
            proof {
                lemma_parent_after_first_dot(text@, i as int);
            }
            let n: usize = text.unicode_len();
            Some(text.substring_char(i + 1, n).to_owned())
        },
        None => None,
    }
}

/// Asks `near_primitives::types::AccountId::validate` whether `text` is an
/// account name. The contract restates that function's rules: it compares the
/// length with 2 and 64, admits `a`-`z`, `0`-`9`, `-`, `_` and `.` only, and
/// refuses a separator that stands first, last or behind another one. (It
/// measures the length in bytes; every admitted character is one byte long.)
#[verifier::external_body]
fn syntax_accepted(text: &str) -> (ok: bool)
    ensures
        ok == well_formed_name(text@),
{
    near_primitives::types::AccountId::validate(text).is_ok()
}

/// An identifier that conforms to the account-naming syntax.
#[derive(Debug, PartialEq, Eq)]
pub struct CandidateAccountId {
    text: String,
}

impl View for CandidateAccountId {
    type V = Seq<char>;

    closed spec fn view(&self) -> Seq<char> {
        self.text@
    }
}

impl CandidateAccountId {
    #[verifier::type_invariant]
    spec fn syntax_holds(&self) -> bool {
        well_formed_name(self.text@)
    }

    /// Accepts `text` exactly when it conforms to the naming syntax.
    pub fn parse(text: &str) -> (parsed: Option<CandidateAccountId>)
        ensures
            parsed.is_some() == well_formed_name(text@),
            parsed.is_some() ==> parsed.unwrap()@ == text@,
    {
        if syntax_accepted(text) {
            Some(CandidateAccountId { text: text.to_owned() })
        } else {
            None
        }
    }

    /// The name as text, which conforms to the naming syntax.
    pub fn as_str(&self) -> (text: &str)
        ensures
            text@ == self@,
            well_formed_name(text@),
    {
        proof {
            use_type_invariant(self);
        }
        self.text.as_str()
    }

    /// The number of characters of the name.
    pub fn char_count(&self) -> (count: usize)
        ensures
            count == self@.len(),
    {
        self.text.as_str().unicode_len()
    }

    /// Whether the candidate is a top-level name.
    pub fn is_top_level(&self) -> (top: bool)
        ensures
            top == is_top_level_name(self@),
    {
        is_top_level(self.text.as_str())
    }

    /// The parent of the candidate, if it is a sub-account.
    pub fn parent(&self) -> (parent: Option<String>)
        ensures
            match parent {
                Some(p) => parent_name(self@) == Some(p@) && p@.len() < self@.len(),
                None => parent_name(self@).is_none(),
            },
    {
        parent_of(self.text.as_str())
    }
}

impl Clone for CandidateAccountId {
    fn clone(&self) -> (copy: Self)
        ensures
            copy@ == self@,
    {
        proof {
            use_type_invariant(self);
        }
        CandidateAccountId { text: self.text.clone() }
    }
}

} // verus!
