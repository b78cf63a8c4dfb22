//! What the multiplexer reads and writes of the language server protocol: the
//! root of a workspace, and the change of the server's workspace folders.

use crate::json::{json_of, Json};
use crate::rpc::{Request, RequestView};
use crate::text::{last_segment, last_segment_of};
use serde_json::Value;
use tower_lsp::lsp_types;
use tower_lsp::lsp_types::Url;
use vstd::prelude::*;

verus! {

/// A URL, as the protocol's types have it.
#[verifier::external_type_specification]
#[verifier::external_body]
pub struct ExUrl(tower_lsp::lsp_types::Url);

/// The characters of a URL.
pub uninterp spec fn url_text(url: tower_lsp::lsp_types::Url) -> Seq<char>;

/// The root URI in the parameters of an `initialize` request, as `serde_json`
/// reads them into `lsp_types::InitializeParams`: none where these are no such
/// parameters.
pub uninterp spec fn initialize_root(params: Json) -> Option<Option<Seq<char>>>;

/// The characters of a URL that may be missing.
pub open spec fn opt_url_text(url: Option<Url>) -> Option<Seq<char>> {
    match url {
        Some(url) => Some(url_text(url)),
        None => None,
    }
}

/// `<Url as Clone>::clone`: the same URL.
#[verifier::external_body]
pub(crate) fn clone_url(url: &Url) -> (copy: Url)
    ensures
        url_text(copy) == url_text(*url),
{
    url.clone()
}

/// `Url::as_str`: the characters of the URL.
#[verifier::external_body]
fn url_str(url: &Url) -> (text: &str)
    ensures
        text@ == url_text(*url),
{
    url.as_str()
}

/// `serde_json::from_value` to `lsp_types::InitializeParams`, of which the root
/// URI is taken: both depend on the value alone.
#[verifier::external_body]
pub(crate) fn read_initialize_root(params: Value) -> (result: Result<Option<Url>, serde_json::Error>)
    ensures
        match initialize_root(json_of(params)) {
            Some(root) => result is Ok && opt_url_text(result->Ok_0) == root,
            None => result is Err,
        },
{
    serde_json::from_value::<lsp_types::InitializeParams>(params).map(|params| params.root_uri)
}

/// A folder that the server works on.
pub struct WorkspaceFolder {
    pub uri: Url,
    pub name: String,
}

pub struct WorkspaceFolderView {
    pub uri: Seq<char>,
    pub name: Seq<char>,
}

impl View for WorkspaceFolder {
    type V = WorkspaceFolderView;

    open spec fn view(&self) -> WorkspaceFolderView {
        WorkspaceFolderView { uri: url_text(self.uri), name: self.name@ }
    }
}

impl WorkspaceFolderView {
    /// A folder as JSON.
    pub open spec fn json(self) -> Json {
        Json::Object(
            Map::<Seq<char>, Json>::empty().insert("uri"@, Json::Text(self.uri)).insert(
                "name"@,
                Json::Text(self.name),
            ),
        )
    }

    /// Folders as JSON.
    pub open spec fn list_json(folders: Seq<WorkspaceFolderView>) -> Json {
        Json::Array(folders.map_values(|folder: WorkspaceFolderView| folder.json()))
    }

    /// The folder with this root, named by the last segment of its URI.
    pub open spec fn named(root: Seq<char>) -> WorkspaceFolderView {
        WorkspaceFolderView { uri: root, name: last_segment(root) }
    }

    /// The folder with this root, without a name.
    pub open spec fn unnamed(root: Seq<char>) -> WorkspaceFolderView {
        WorkspaceFolderView { uri: root, name: Seq::empty() }
    }
}

/// The parameters of a change of folders as JSON.
pub open spec fn folder_change_json(
    added: Seq<WorkspaceFolderView>,
    removed: Seq<WorkspaceFolderView>,
) -> Json {
    let event = Map::<Seq<char>, Json>::empty().insert(
        "added"@,
        WorkspaceFolderView::list_json(added),
    ).insert("removed"@, WorkspaceFolderView::list_json(removed));
    Json::Object(Map::<Seq<char>, Json>::empty().insert("event"@, Json::Object(event)))
}

/// The notification of a change of folders.
pub open spec fn folder_change(
    added: Seq<WorkspaceFolderView>,
    removed: Seq<WorkspaceFolderView>,
) -> RequestView {
    RequestView {
        method: "workspace/didChangeWorkspaceFolders"@,
        id: None,
        params: Some(folder_change_json(added, removed)),
    }
}

/// `serde_json::to_value` on the `lsp_types::DidChangeWorkspaceFoldersParams`
/// with these folders: it never fails, since the members are named by strings;
/// a URL is written as its characters.
#[verifier::external_body]
fn write_folder_change(
    added: Vec<WorkspaceFolder>,
    removed: Vec<WorkspaceFolder>,
) -> (result: Result<Value, serde_json::Error>)
    ensures
        result is Ok,
        json_of(result->Ok_0) == folder_change_json(
            added@.map_values(|folder: WorkspaceFolder| folder@),
            removed@.map_values(|folder: WorkspaceFolder| folder@),
        ),
{
    let outside = |folder: WorkspaceFolder| lsp_types::WorkspaceFolder {
        uri: folder.uri,
        name: folder.name,
    };
    serde_json::to_value(lsp_types::DidChangeWorkspaceFoldersParams {
        event: lsp_types::WorkspaceFoldersChangeEvent {
            added: added.into_iter().map(outside).collect(),
            removed: removed.into_iter().map(outside).collect(),
        },
    })
}

/// The notification of a change of folders.
fn folder_change_request(added: Vec<WorkspaceFolder>, removed: Vec<WorkspaceFolder>) -> (request:
    Request)
    ensures
        request@ == folder_change(
            added@.map_values(|folder: WorkspaceFolder| folder@),
            removed@.map_values(|folder: WorkspaceFolder| folder@),
        ),
{
    let params = write_folder_change(added, removed).unwrap();
    Request {
        method: "workspace/didChangeWorkspaceFolders".to_owned(),
        id: None,
        params: Some(params),
    }
}

/// The notification that a folder has come: it is named by the last segment of
/// its URI.
pub fn folder_added(root: Url) -> (request: Request)
    ensures
        request@ == folder_change(seq![WorkspaceFolderView::named(url_text(root))], Seq::empty()),
{
    let name = last_segment_of(url_str(&root));
    let added = vec![WorkspaceFolder { uri: root, name }];
    let removed: Vec<WorkspaceFolder> = Vec::new();
    assert(added@.map_values(|folder: WorkspaceFolder| folder@)
        =~= seq![WorkspaceFolderView::named(url_text(root))]);
    assert(removed@.map_values(|folder: WorkspaceFolder| folder@) =~= Seq::empty());
    folder_change_request(added, removed)
}

/// The notification that a folder has gone: its URI says which.
pub fn folder_removed(root: Url) -> (request: Request)
    ensures
        request@ == folder_change(Seq::empty(), seq![WorkspaceFolderView::unnamed(url_text(root))]),
{
    let added: Vec<WorkspaceFolder> = Vec::new();
    let removed = vec![WorkspaceFolder { uri: root, name: String::new() }];
    assert(added@.map_values(|folder: WorkspaceFolder| folder@) =~= Seq::empty());
    assert(removed@.map_values(|folder: WorkspaceFolder| folder@)
        =~= seq![WorkspaceFolderView::unnamed(url_text(root))]);
    folder_change_request(added, removed)
}

} // verus!
