//! Tasks and where their content goes in the mirror.
use crate::assets::{extracted_assets, parse_html, ArchiveScope};
use crate::text::views;
use crate::url::{
    extract_url_last_part, leaf_name, mirror_dir, remove_scheme_and_last_path_part_from_url,
};
use vstd::prelude::*;

verus! {

/// One unit of archival work: a rendered page, or an asset already downloaded
/// to `file_path` that the page at `page_url` refers to.
pub enum Task {
    Parse { url: String, body: String, head: String },
    Attach { url: String, file_path: String, page_url: String },
}

/// Why a task could not be carried out.
#[derive(Debug, Clone, Copy, PartialEq, Eq, Structural)]
pub enum TaskError {
    /// A URL has no scheme or no path segment after the host.
    PathExtraction,
    DirectoryCreation,
    FileWrite,
    FileCopy,
}

/// Why a task's JSON form could not be read.
#[allow(non_camel_case_types)]
#[derive(Debug, Clone, Copy, PartialEq, Eq, Structural)]
pub enum DESERIALIZATION_ERROR {
    NO_TASK_TYPE,
    MISSING_FIELD,
    UNKNOWN_TASK_TYPE,
}

/// What a task asks of the file system, and what it hands back.
pub enum Placement {
    /// Create `dir`, write `document` to `file`; `assets` remain to be fetched
    /// for the page `page_url`.
    WritePage { dir: String, file: String, document: String, assets: Vec<String>, page_url: String },
    /// Create `dir`, copy `source` to `target`; the asset belongs to `page_url`.
    CopyAsset { dir: String, target: String, source: String, page_url: String },
}

/// The document written for a page with the given head and body markup.
pub open spec fn page_document(head: Seq<char>, body: Seq<char>) -> Seq<char> {
    "<html>\n\n<head>\n"@ + head + "\n</head>\n\n<body>\n"@ + body + "\n</body>\n\n</html>"@
}

/// `dir/leaf`.
pub open spec fn join(dir: Seq<char>, leaf: Seq<char>) -> Seq<char> {
    dir + seq!['/'] + leaf
}

/// Where the assets of a page are mirrored: `page_dir/assets/asset_dir`.
pub open spec fn asset_dir(page_dir: Seq<char>, asset_dir: Seq<char>) -> Seq<char> {
    page_dir + "/assets/"@ + asset_dir
}

/// Wraps `head` and `body` into a whole HTML document.
pub fn compose_document(head: &str, body: &str) -> (r: String)
    ensures
        r@ == page_document(head@, body@),
{
    let mut data = String::from_str("<html>\n\n<head>\n");
    data.append(head);
    data.append("\n</head>\n\n<body>\n");
    data.append(body);
    data.append("\n</body>\n\n</html>");
    data
}

impl Task {
    /// The URL that the task is about.
    pub open spec fn url_view(&self) -> Seq<char> {
        match self {
            Task::Parse { url, .. } => url@,
            Task::Attach { url, .. } => url@,
        }
    }

    pub fn url(&self) -> (r: &str)
        ensures
            r@ == self.url_view(),
    {
        match self {
            Task::Parse { url, .. } => url.as_str(),
            Task::Attach { url, .. } => url.as_str(),
        }
    }

    /// Works out where the task's content goes. A page is written to its mirror
    /// directory under its leaf name and scanned for assets; an asset goes under
    /// `assets/` in the directory of the page that refers to it. Fails with
    /// `PathExtraction` exactly when a URL it needs cannot be mapped.
    pub fn plan(&self, scope: &ArchiveScope) -> (r: Result<Placement, TaskError>)
        ensures
            match self {
                Task::Parse { url, body, head } => match mirror_dir(url@) {
                    None => r == Err::<Placement, TaskError>(TaskError::PathExtraction),
                    Some(d) => r matches Ok(Placement::WritePage { dir, file, document, assets, page_url })
                        && dir@ == d
                        && file@ == join(d, leaf_name(url@))
                        && document@ == page_document(head@, body@)
                        && views(assets@) == extracted_assets(document@, url@, scope.markers())
                        && page_url@ == url@,
                },
                Task::Attach { url, file_path, page_url } => match (mirror_dir(page_url@), mirror_dir(url@)) {
                    (Some(pd), Some(ad)) => r matches Ok(Placement::CopyAsset { dir, target, source, page_url: p })
                        && dir@ == asset_dir(pd, ad)
                        && target@ == join(asset_dir(pd, ad), leaf_name(url@))
                        && source@ == file_path@
                        && p@ == page_url@,
                    _ => r == Err::<Placement, TaskError>(TaskError::PathExtraction),
                },
            },
    {
        let leaf = extract_url_last_part(self.url());
        proof {
            reveal_strlit("/");
        }
        match self {
            Task::Parse { url, body, head } => {
                let dir = match remove_scheme_and_last_path_part_from_url(url.as_str()) {
                    Some(d) => d,
                    None => return Err(TaskError::PathExtraction),
                };
                let file = dir.clone().concat("/").concat(leaf.as_str());
                let document = compose_document(head.as_str(), body.as_str());
                let parsed = parse_html(document.as_str(), url.as_str(), scope);
                Ok(Placement::WritePage {
                    dir,
                    file,
                    document,
                    assets: parsed.assets,
                    page_url: parsed.url,
                })
            },
            Task::Attach { url, file_path, page_url } => {
                let page_dir = match remove_scheme_and_last_path_part_from_url(page_url.as_str()) {
                    Some(d) => d,
                    None => return Err(TaskError::PathExtraction),
                };
                let sub = match remove_scheme_and_last_path_part_from_url(url.as_str()) {
                    Some(d) => d,
                    None => return Err(TaskError::PathExtraction),
                };
                let dir = page_dir.concat("/assets/").concat(sub.as_str());
                let target = dir.clone().concat("/").concat(leaf.as_str());
                Ok(Placement::CopyAsset {
                    dir,
                    target,
                    source: file_path.clone(),
                    page_url: page_url.clone(),
                })
            },
        }
    }
}

} // verus!
