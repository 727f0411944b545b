//! Turning a descriptor's command line into the argument vector of the
//! program that replaces the launcher.
use vstd::prelude::*;

verus! {

/// The words of a command line under shell word-splitting rules (quotes and
/// escapes honoured, nothing expanded), or none when the line is malformed, as
/// `shlex::split` gives them.
pub uninterp spec fn split_of(s: Seq<char>) -> Option<Seq<Seq<char>>>;

/// Relies on `shlex::split`: the words of the line, or none when it is
/// malformed (an unbalanced quote, a trailing backslash); the outcome depends
/// on the line alone.
#[verifier::external_body]
fn split_words(s: &str) -> (r: Option<Vec<String>>)
    ensures
        match r {
            Some(v) => split_of(s@) == Some(v@.map_values(|w: String| w@)),
            None => split_of(s@) is None,
        },
{
    shlex::split(s)
}

/// Why a command line gives no argument vector.
#[derive(Clone, Copy, Debug, PartialEq, Eq)]
pub enum LaunchError {
    /// The line does not split into words (an unbalanced quote, say).
    Malformed,
    /// The line holds no word, so there is no program to run.
    Empty,
    /// A word holds a NUL character, which no argument can carry.
    NulCharacter,
}

/// Whether some word holds a NUL character.
pub open spec fn has_nul(words: Seq<Seq<char>>) -> bool {
    exists|i: int, j: int| 0 <= i < words.len() && 0 <= j < words[i].len() && #[trigger] words[i][j] == '\0'
}

/// The argument vector of a command line: its words, the first naming the
/// program; an error when it does not split, is empty, or holds a NUL.
pub open spec fn argv_of(command: Seq<char>) -> Result<Seq<Seq<char>>, LaunchError> {
    match split_of(command) {
        None => Err(LaunchError::Malformed),
        Some(words) => if words.len() == 0 {
            Err(LaunchError::Empty)
        } else if has_nul(words) {
            Err(LaunchError::NulCharacter)
        } else {
            Ok(words)
        },
    }
}

/// Whether a text holds a NUL character.
fn holds_nul(s: &str) -> (r: bool)
    ensures
        r == exists|j: int| 0 <= j < s@.len() && #[trigger] s@[j] == '\0',
{
    let n = s.unicode_len();
    let mut j: usize = 0;
    while j < n
        invariant
            n == s@.len(),
            j <= n,
            forall|k: int| 0 <= k < j ==> s@[k] != '\0',
        decreases n - j,
    {
        if s.get_char(j) == '\0' {
            return true;
        }
        j = j + 1;
    }
    false
}

/// The argument vector that runs `command`: its shell words, the first being
/// the program, which is also the first argument.
pub fn command_argv(command: &str) -> (r: Result<Vec<String>, LaunchError>)
    ensures
        match r {
            Ok(v) => argv_of(command@) == Ok::<Seq<Seq<char>>, LaunchError>(v@.map_values(|w: String| w@)),
            Err(e) => argv_of(command@) == Err::<Seq<Seq<char>>, LaunchError>(e),
        },
{
    let words = match split_words(command) {
        Some(w) => w,
        None => return Err(LaunchError::Malformed),
    };
    let ghost views = words@.map_values(|w: String| w@);
    if words.len() == 0 {
        return Err(LaunchError::Empty);
    }
    let mut i: usize = 0;
    while i < words.len()
        invariant
            i <= words@.len(),
            views == words@.map_values(|w: String| w@),
            split_of(command@) == Some(views),
            views.len() > 0,
            forall|a: int, j: int| 0 <= a < i && 0 <= j < views[a].len() ==> views[a][j] != '\0',
        decreases words@.len() - i,
    {
        if holds_nul(words[i].as_str()) {
            assert(views[i as int] == words@[i as int]@);
            let ghost j = choose|j: int| 0 <= j < views[i as int].len() && views[i as int][j] == '\0';
            assert(views[i as int][j] == '\0');
            assert(has_nul(views));
            return Err(LaunchError::NulCharacter);
        }
        i = i + 1;
    }
    Ok(words)
}

} // verus!
