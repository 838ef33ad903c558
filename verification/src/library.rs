//! The library listing and the search filter handed to the retrieval service.
use vstd::prelude::*;

verus! {

/// The optional narrowing of a library search: by author, by document type
/// and by project. A field left empty does not narrow.
pub struct LibrarySearchFilter {
    pub author: Option<String>,
    pub kind: Option<String>,
    pub project: Option<String>,
}

/// One stored chunk as the retrieval service lists it.
pub struct ChunkItem {
    pub id: String,
    pub text: String,
    pub source: String,
    pub heading: String,
    pub source_category: String,
}

/// One heading of a stored file.
pub struct LibraryFileHeading {
    pub heading: String,
}

/// One stored file with the headings of its chunks.
pub struct LibraryFileItem {
    pub source: String,
    pub source_category: String,
    pub headings: Vec<LibraryFileHeading>,
}

fn clone_opt(s: &Option<String>) -> (r: Option<String>)
    ensures
        r == *s,
{
    match s {
        Some(v) => Some(v.clone()),
        None => None,
    }
}

/// The filter of a library search: none when no criterion is given, else
/// one that carries exactly the given criteria.
pub fn library_search_filter(
    author: &Option<String>,
    kind: &Option<String>,
    project: &Option<String>,
) -> (f: Option<LibrarySearchFilter>)
    ensures
        f.is_some() <==> (author.is_some() || kind.is_some() || project.is_some()),
        f matches Some(v) ==> v.author == *author && v.kind == *kind && v.project == *project,
{
    if author.is_some() || kind.is_some() || project.is_some() {
        Some(
            LibrarySearchFilter {
                author: clone_opt(author),
                kind: clone_opt(kind),
                project: clone_opt(project),
            },
        )
    } else {
        None
    }
}

/// The heading texts of a stored file, in the order the service gave them.
pub fn heading_names(item: &LibraryFileItem) -> (names: Vec<String>)
    ensures
        names@.len() == item.headings@.len(),
        forall|i: int| 0 <= i < names@.len() ==> #[trigger] names@[i]@ == item.headings@[i].heading@,
{
    let mut names: Vec<String> = Vec::new();
    let mut i: usize = 0;
    while i < item.headings.len()
        invariant
            i <= item.headings@.len(),
            names@.len() == i,
            forall|k: int| 0 <= k < i ==> #[trigger] names@[k]@ == item.headings@[k].heading@,
        decreases item.headings@.len() - i,
    {
        names.push(item.headings[i].heading.clone());
        i = i + 1;
    }
    names
}

} // verus!
