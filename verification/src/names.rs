//! The names of the project types in text: which spellings are understood,
//! and how each type is written out.

use vstd::prelude::*;
use std::str::FromStr;
use crate::registry::ProjectTypes;

verus! {

/// Why a text was not understood.
#[derive(Debug, Clone, Copy, PartialEq, Eq, Structural)]
pub enum ParseError {
    /// The text is not the name of a project type.
    ProjectType,
}

impl ParseError {
    /// The error in words.
    pub fn to_string(&self) -> (text: String)
        ensures
            text@ == "Unable to parse project type"@,
    {
        "Unable to parse project type".to_owned()
    }
}

/// The project type that `text` names, if it names one. The whole text must
/// be one of the spellings, letter for letter.
pub open spec fn named(text: Seq<char>) -> Option<ProjectTypes> {
    if text == "git"@ {
        Some(ProjectTypes::Git)
    } else if text == "docker"@ {
        Some(ProjectTypes::Docker)
    } else if text == "node"@ || text == "js"@ || text == "nodejs"@ {
        Some(ProjectTypes::NodeJS)
    } else if text == "rust"@ {
        Some(ProjectTypes::Rust)
    } else if text == "python"@ {
        Some(ProjectTypes::Python)
    } else if text == "nix"@ {
        Some(ProjectTypes::Nix)
    } else {
        None
    }
}

/// Whether two texts are the same, character by character.
pub fn same_text(left: &str, right: &str) -> (same: bool)
    ensures
        same == (left@ == right@),
{
    let n: usize = left.unicode_len();
    if n != right.unicode_len() {
        return false;
    }
    let mut i: usize = 0;
    while i < n
        invariant
            i <= n,
            n == left@.len(),
            n == right@.len(),
            forall|j: int| 0 <= j < i ==> left@[j] == right@[j],
        decreases n - i,
    {
        if left.get_char(i) != right.get_char(i) {
            return false;
        }
        i += 1;
    }
    assert(left@ =~= right@);
    true
}

impl ProjectTypes {
    /// The one spelling under which this type is written out.
    pub open spec fn name(self) -> Seq<char> {
        match self {
            ProjectTypes::Git => "git"@,
            ProjectTypes::Docker => "docker"@,
            ProjectTypes::NodeJS => "nodejs"@,
            ProjectTypes::Rust => "rust"@,
            ProjectTypes::Python => "python"@,
            ProjectTypes::Nix => "nix"@,
        }
    }

    /// This type's name in text.
    pub fn to_string(&self) -> (text: String)
        ensures
            text@ == self.name(),
    {
        let repr = match self {
            ProjectTypes::Git => "git",
            ProjectTypes::Docker => "docker",
            ProjectTypes::NodeJS => "nodejs",
            ProjectTypes::Rust => "rust",
            ProjectTypes::Python => "python",
            ProjectTypes::Nix => "nix",
        };
        repr.to_owned()
    }
}

impl FromStr for ProjectTypes {
    type Err = ParseError;

    /// Reads the name of a project type. Succeeds exactly on the spellings
    /// that `named` lists.
    fn from_str(s: &str) -> (parsed: Result<Self, ParseError>)
        ensures
            parsed == match named(s@) {
                Some(project_type) => Ok::<ProjectTypes, ParseError>(project_type),
                None => Err::<ProjectTypes, ParseError>(ParseError::ProjectType),
            },
    {
        if same_text(s, "git") {
            Ok(ProjectTypes::Git)
        } else if same_text(s, "docker") {
            Ok(ProjectTypes::Docker)
        } else if same_text(s, "node") || same_text(s, "js") || same_text(s, "nodejs") {
            Ok(ProjectTypes::NodeJS)
        } else if same_text(s, "rust") {
            Ok(ProjectTypes::Rust)
        } else if same_text(s, "python") {
            Ok(ProjectTypes::Python)
        } else if same_text(s, "nix") {
            Ok(ProjectTypes::Nix)
        } else {
            Err(ParseError::ProjectType)
        }
    }
}

impl Default for ProjectTypes {
    fn default() -> (project_type: Self)
        ensures
            project_type == ProjectTypes::Git,
    {
        ProjectTypes::Git
    }
}

/// The lengths and the first two letters of the spellings, by which they
/// are told apart.
proof fn lemma_spellings()
    ensures
        "js"@.len() == 2 && "js"@[0] == 'j' && "js"@[1] == 's',
        "git"@.len() == 3 && "git"@[0] == 'g' && "git"@[1] == 'i',
        "nix"@.len() == 3 && "nix"@[0] == 'n' && "nix"@[1] == 'i',
        "node"@.len() == 4 && "node"@[0] == 'n' && "node"@[1] == 'o',
        "rust"@.len() == 4 && "rust"@[0] == 'r' && "rust"@[1] == 'u',
        "docker"@.len() == 6 && "docker"@[0] == 'd',
        "nodejs"@.len() == 6 && "nodejs"@[0] == 'n',
        "python"@.len() == 6 && "python"@[0] == 'p',
{
    reveal_strlit("js");
    reveal_strlit("git");
    reveal_strlit("nix");
    reveal_strlit("node");
    reveal_strlit("rust");
    reveal_strlit("docker");
    reveal_strlit("nodejs");
    reveal_strlit("python");
}

/// Writing a type out gives a spelling that reads back as the same type.
pub proof fn lemma_written_name_reads_back(project_type: ProjectTypes)
    ensures
        named(project_type.name()) == Some(project_type),
{
    lemma_spellings();
}

/// Reading a text and writing the result out gives the one spelling of the
/// type that was read, which reads back as the same type. That spelling is
/// the text that was read, unless the text was one of the two short
/// spellings of NodeJS.
pub proof fn lemma_reading_then_writing_is_canonical(text: Seq<char>)
    requires
        named(text).is_some(),
    ensures
        named(named(text).unwrap().name()) == named(text),
        named(text).unwrap().name() == text || text == "node"@ || text == "js"@,
{
    lemma_written_name_reads_back(named(text).unwrap());
}

/// Only a text of two to six characters names a type: a spelling with
/// anything before or after it names none.
pub proof fn lemma_named_texts_are_short(text: Seq<char>)
    requires
        named(text).is_some(),
    ensures
        2 <= text.len() <= 6,
{
    lemma_spellings();
}

/// A spelling with one more character after it or before it names no
/// type: the whole text must match.
pub proof fn lemma_one_more_character_names_nothing(text: Seq<char>, extra: char)
    requires
        named(text).is_some(),
    ensures
        named(text.push(extra)).is_none(),
        named(seq![extra] + text).is_none(),
{
    lemma_spellings();
    let after = text.push(extra);
    let before = seq![extra] + text;
    assert(after.len() == text.len() + 1 && before.len() == text.len() + 1);
    assert(after[0] == text[0] && after[1] == text[1]);
    assert(before[1] == text[0]);
}

} // verus!
