//! The data model: one gist (a named collection of text files), its owner,
//! its member files, and the errors the pipeline reports.

use vstd::prelude::*;

verus! {

/// One member file of a gist: a download instruction. `raw_url` is where the
/// verbatim content is fetched from; `size` is a hint only.
pub struct GistFile {
    pub filename: String,
    pub file_type: String,
    pub language: Option<String>,
    pub raw_url: String,
    pub size: u32,
}

/// The account a gist belongs to, as the listing endpoint reports it.
pub struct GistOwner {
    pub login: String,
    pub id: u64,
    pub node_id: String,
    pub avatar_url: String,
    pub gravatar_id: String,
    pub url: String,
    pub html_url: String,
    pub followers_url: String,
    pub following_url: String,
    pub gists_url: String,
    pub starred_url: String,
    pub subscriptions_url: String,
    pub organizations_url: String,
    pub repos_url: String,
    pub events_url: String,
    pub received_events_url: String,
    pub user_type: String,
    pub site_admin: bool,
    pub user_view_type: String,
}

/// One gist from the listing: an immutable record with a unique `id`, the
/// member files keyed by their (unique) file names, and an optional
/// description.
pub struct Gist {
    pub url: String,
    pub forks_url: String,
    pub commits_url: String,
    pub id: String,
    pub node_id: String,
    pub git_pull_url: String,
    pub git_push_url: String,
    pub html_url: String,
    pub files: Vec<GistFile>,
    pub public: bool,
    pub created_at: String,
    pub updated_at: String,
    pub description: Option<String>,
    pub comments: u32,
    pub user: Option<GistOwner>,
    pub comments_enabled: bool,
    pub comments_url: String,
    pub owner: GistOwner,
    pub truncated: bool,
}

pub type Gists = Vec<Gist>;

/// Where a listing body failed to parse: `line` and `column` as the parser
/// reported them (1-based, the column counted in bytes from the line's
/// start), and `offset`, the byte offset of the faulty token within the
/// body, clamped to the body's byte length.
pub struct ParseFault {
    pub line: usize,
    pub column: usize,
    pub offset: usize,
}

/// What can go wrong in the pipeline.
///
/// A `RequestError` or `JsonError` during the listing phase is fatal to the
/// whole run; during the download phase a `RequestError` or `IoError` is
/// isolated to the one item it struck. `JsonError` carries the raw response
/// body verbatim, beside the fault position — malformed data is reported,
/// never silently dropped.
pub enum GistError {
    RequestError(String),
    IoError(String),
    JsonError(ParseFault, String),
}

impl GistError {
    /// The one-line report of an error, naming its kind and its details; a
    /// parse error names the fault position and carries the raw body.
    pub open spec fn message_spec(self) -> Seq<char> {
        match self {
            GistError::RequestError(detail) => "HTTP request failed: "@ + detail@,
            GistError::IoError(detail) => "IO operation failed: "@ + detail@,
            GistError::JsonError(fault, body) => "JSON parsing failed at line "@ + crate::text::dec_of(
                fault.line as nat,
            ) + ", column "@ + crate::text::dec_of(fault.column as nat) + "\nResponse text: "@
                + body@,
        }
    }

    /// Renders the error for reporting.
    pub fn message(&self) -> (s: String)
        ensures
            s@ == self.message_spec(),
    {
        match self {
            GistError::RequestError(detail) => {
                let mut s = String::from_str("HTTP request failed: ");
                s.append(detail.as_str());
                s
            },
            GistError::IoError(detail) => {
                let mut s = String::from_str("IO operation failed: ");
                s.append(detail.as_str());
                s
            },
            GistError::JsonError(fault, body) => {
                let mut s = String::from_str("JSON parsing failed at line ");
                let line = crate::text::u64_to_string(fault.line as u64);
                s.append(line.as_str());
                s.append(", column ");
                let column = crate::text::u64_to_string(fault.column as u64);
                s.append(column.as_str());
                s.append("\nResponse text: ");
                s.append(body.as_str());
                proof {
                    assert(s@ =~= self.message_spec());
                }
                s
            },
        }
    }
}

impl Gist {
    /// File names within one gist are unique: the files form a map keyed by
    /// name, whatever order they are held in.
    pub open spec fn files_wf(self) -> bool {
        forall|i: int, j: int|
            0 <= i < j < self.files@.len() ==> self.files@[i].filename@
                != self.files@[j].filename@
    }

    /// The one-line rendering of a gist: id, description (or a placeholder),
    /// and the file names joined by a comma and space.
    pub open spec fn display_spec(self) -> Seq<char> {
        self.id@ + " - "@ + (match self.description {
            Some(d) => d@,
            None => "<no description>"@,
        }) + " ("@ + joined_filenames(self.files@) + ")"@
    }

    /// Renders the gist as `id - description (file1, file2, ...)`, with
    /// `<no description>` in place of an absent description.
    pub fn display_string(&self) -> (s: String)
        ensures
            s@ == self.display_spec(),
    {
        let mut s = String::new();
        s.append(self.id.as_str());
        s.append(" - ");
        match &self.description {
            Some(d) => s.append(d.as_str()),
            None => s.append("<no description>"),
        }
        s.append(" (");
        let mut i: usize = 0;
        while i < self.files.len()
            invariant
                i <= self.files@.len(),
                s@ == self.id@ + " - "@ + (match self.description {
                    Some(d) => d@,
                    None => "<no description>"@,
                }) + " ("@ + joined_filenames(self.files@.subrange(0, i as int)),
            decreases self.files@.len() - i,
        {
            if i > 0 {
                s.append(", ");
            }
            s.append(self.files[i].filename.as_str());
            proof {
                let sub = self.files@.subrange(0, i + 1);
                assert(sub.drop_last() == self.files@.subrange(0, i as int));
                assert(sub.last() == self.files@[i as int]);
                if i == 0 {
                    assert(joined_filenames(sub) == self.files@[0].filename@);
                }
            }
            i = i + 1;
        }
        s.append(")");
        proof {
            assert(self.files@.subrange(0, self.files@.len() as int) == self.files@);
        }
        s
    }
}

/// The file names of `files` joined by `", "`, in the order they are held.
pub open spec fn joined_filenames(files: Seq<GistFile>) -> Seq<char>
    decreases files.len(),
{
    if files.len() == 0 {
        Seq::empty()
    } else if files.len() == 1 {
        files[0].filename@
    } else {
        joined_filenames(files.drop_last()) + ", "@ + files.last().filename@
    }
}

} // verus!
