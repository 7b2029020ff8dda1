//! The HTTP requests that the client's operations send to the device.
//!
//! Each operation of the device's API becomes a [`Request`]: its method, the
//! endpoint relative to the device's base URL, the query pairs and the body.
//! Sending it is left to the transport.
use vstd::prelude::*;

use crate::error::{Error, Result};
use crate::json::{json_string_array, to_json};
use crate::filesystem::{joined_path, safe_join, RemoteFile};
use crate::text::{chars_of, forward_slashes, push_char, string_of, with_forward_slashes};

verus! {

/// The HTTP method of a request.
#[derive(Debug, Clone, Copy, PartialEq, Eq, Structural)]
pub enum Method {
    Get,
    Post,
}

/// The body of a request.
#[derive(Debug)]
pub enum Payload {
    /// No body.
    Nothing,
    /// URL-encoded form fields, in order.
    Form(Vec<(String, String)>),
    /// A multipart body with one file part.
    File { field: String, file_name: String, bytes: Vec<u8> },
}

/// A request to the device.
#[derive(Debug)]
pub struct Request {
    pub method: Method,
    /// The endpoint, joined onto the device's base URL.
    pub endpoint: String,
    /// Query pairs, in order.
    pub query: Vec<(String, String)>,
    pub payload: Payload,
}

/// The characters of each pair of strings.
pub open spec fn pairs_view(v: Seq<(String, String)>) -> Seq<(Seq<char>, Seq<char>)> {
    v.map_values(|p: (String, String)| (p.0@, p.1@))
}

/// What a body holds.
pub enum PayloadView {
    Nothing,
    Form(Seq<(Seq<char>, Seq<char>)>),
    File { field: Seq<char>, file_name: Seq<char>, bytes: Seq<u8> },
}

/// What a request holds.
pub struct RequestView {
    pub method: Method,
    pub endpoint: Seq<char>,
    pub query: Seq<(Seq<char>, Seq<char>)>,
    pub payload: PayloadView,
}

impl View for Payload {
    type V = PayloadView;

    open spec fn view(&self) -> PayloadView {
        match self {
            Payload::Nothing => PayloadView::Nothing,
            Payload::Form(f) => PayloadView::Form(pairs_view(f@)),
            Payload::File { field, file_name, bytes } => PayloadView::File {
                field: field@,
                file_name: file_name@,
                bytes: bytes@,
            },
        }
    }
}

impl View for Request {
    type V = RequestView;

    open spec fn view(&self) -> RequestView {
        RequestView {
            method: self.method,
            endpoint: self.endpoint@,
            query: pairs_view(self.query@),
            payload: self.payload@,
        }
    }
}

/// A `GET` of `endpoint` with the given query.
pub open spec fn get_request(endpoint: Seq<char>, query: Seq<(Seq<char>, Seq<char>)>) -> RequestView {
    RequestView { method: Method::Get, endpoint, query, payload: PayloadView::Nothing }
}

/// A `POST` of form fields to `endpoint`, with no query.
pub open spec fn form_request(endpoint: Seq<char>, form: Seq<(Seq<char>, Seq<char>)>) -> RequestView {
    RequestView {
        method: Method::Post,
        endpoint,
        query: Seq::empty(),
        payload: PayloadView::Form(form),
    }
}

/// The index of the last `/` of `s`.
pub open spec fn last_slash(s: Seq<char>) -> Option<int>
    decreases s.len(),
{
    if s.len() == 0 {
        None
    } else if s.last() == '/' {
        Some(s.len() - 1)
    } else {
        last_slash(s.drop_last())
    }
}

/// The parent directory and the new directory's name that `mkdir` sends for
/// `path`: the text before and after its last `/`, with `/` as the parent
/// when nothing stands before it. `None` when `path` holds no `/`.
pub open spec fn mkdir_fields(path: Seq<char>) -> Option<(Seq<char>, Seq<char>)> {
    match last_slash(path) {
        Some(k) => Some(
            (if k == 0 {
                seq!['/']
            } else {
                path.take(k)
            }, path.skip(k + 1)),
        ),
        None => None,
    }
}

/// The paths that a forced deletion of `dir` removes before `dir` itself:
/// for each plain file of the listing whose name is a single component, in
/// listing order, the name joined onto `dir` with backslashes turned into
/// forward slashes. Directories and other names are skipped.
pub open spec fn deletion_paths(dir: Seq<char>, files: Seq<RemoteFile>) -> Seq<Seq<char>>
    decreases files.len(),
{
    if files.len() == 0 {
        seq![]
    } else {
        let rest = deletion_paths(dir, files.drop_last());
        let f = files.last();
        if !f.is_directory && joined_path(dir, f.name@) is Some {
            rest.push(forward_slashes(joined_path(dir, f.name@)->0))
        } else {
            rest
        }
    }
}

/// Everything that a forced deletion of `dir` removes, `dir` last.
pub open spec fn force_delete_targets(dir: Seq<char>, files: Seq<RemoteFile>) -> Seq<Seq<char>> {
    deletion_paths(dir, files).push(dir)
}

/// `dir` names the root, which a forced deletion refuses.
pub open spec fn is_root(dir: Seq<char>) -> bool {
    dir == seq!['/'] || dir == seq!['\\']
}

proof fn lemma_last_slash(s: Seq<char>)
    ensures
        match last_slash(s) {
            Some(k) => 0 <= k < s.len() && s[k] == '/' && forall|j: int|
                k < j < s.len() ==> s[j] != '/',
            None => forall|j: int| 0 <= j < s.len() ==> s[j] != '/',
        },
    decreases s.len(),
{
    if s.len() > 0 && s.last() != '/' {
        lemma_last_slash(s.drop_last());
        assert forall|j: int| 0 <= j < s.len() - 1 implies s[j] == s.drop_last()[j] by {}
    }
}

/// `mkdir` splits a path at its last `/`: the name holds no `/`, and the
/// parent, a `/` and the name give the path back, except for a name right
/// under the root, whose parent is `/` itself. A path without `/` has no
/// split.
pub proof fn law_mkdir_splits_at_last_slash(path: Seq<char>)
    ensures
        mkdir_fields(path) is None <==> forall|j: int| 0 <= j < path.len() ==> path[j] != '/',
        mkdir_fields(path) matches Some((parent, name)) ==> {
            &&& forall|j: int| 0 <= j < name.len() ==> name[j] != '/'
            &&& if parent == seq!['/'] && path[0] == '/' && (forall|j: int|
                1 <= j < path.len() ==> path[j] != '/') {
                path == seq!['/'] + name
            } else {
                path == parent + seq!['/'] + name
            }
        },
{
    lemma_last_slash(path);
    match last_slash(path) {
        Some(k) => {
            let name = path.skip(k + 1);
            assert forall|j: int| 0 <= j < name.len() implies name[j] != '/' by {
                assert(name[j] == path[k + 1 + j]);
            }
            if k == 0 {
                assert(path =~= seq!['/'] + name);
            } else {
                assert(path =~= path.take(k) + seq!['/'] + name);
                if path.take(k) == seq!['/'] {
                    assert(path.take(k).len() == 1);
                    assert(path[1] == '/');
                }
            }
        },
        None => {},
    }
}

/// The last target of a forced deletion is the directory itself, after one
/// path for each plain file at most.
pub proof fn law_force_delete_removes_dir_last(dir: Seq<char>, files: Seq<RemoteFile>)
    ensures
        force_delete_targets(dir, files).last() == dir,
        force_delete_targets(dir, files).len() == deletion_paths(dir, files).len() + 1,
        deletion_paths(dir, files).len() <= files.len(),
    decreases files.len(),
{
    if files.len() > 0 {
        law_force_delete_removes_dir_last(dir, files.drop_last());
    }
}

/// Every path that a forced deletion removes before the directory comes
/// from a plain file of the listing whose name `safe_join` accepts, and
/// every such file gives one; directories are never among them.
pub proof fn law_force_delete_removes_plain_files(dir: Seq<char>, files: Seq<RemoteFile>)
    ensures
        forall|p: Seq<char>|
            #[trigger] deletion_paths(dir, files).contains(p) ==> exists|i: int|
                0 <= i < files.len() && !files[i].is_directory && joined_path(dir, files[i].name@)
                    is Some && p == forward_slashes(joined_path(dir, files[i].name@)->0),
        forall|i: int|
            0 <= i < files.len() && !files[i].is_directory && joined_path(
                dir,
                #[trigger] files[i].name@,
            ) is Some ==> deletion_paths(dir, files).contains(
                forward_slashes(joined_path(dir, files[i].name@)->0),
            ),
    decreases files.len(),
{
    if files.len() > 0 {
        let init = files.drop_last();
        law_force_delete_removes_plain_files(dir, init);
        let rest = deletion_paths(dir, init);
        let all = deletion_paths(dir, files);
        assert forall|p: Seq<char>| #[trigger] all.contains(p) implies exists|i: int|
            0 <= i < files.len() && !files[i].is_directory && joined_path(dir, files[i].name@) is Some
                && p == forward_slashes(joined_path(dir, files[i].name@)->0) by {
            let j = choose|j: int| 0 <= j < all.len() && all[j] == p;
            if j < rest.len() {
                assert(rest[j] == p);
                assert(rest.contains(p));
                let i = choose|i: int|
                    0 <= i < init.len() && !init[i].is_directory && joined_path(dir, init[i].name@)
                        is Some && p == forward_slashes(joined_path(dir, init[i].name@)->0);
                assert(files[i] == init[i]);
            } else {
                assert(files[files.len() - 1] == files.last());
            }
        }
        assert forall|i: int|
            0 <= i < files.len() && !files[i].is_directory && joined_path(
                dir,
                #[trigger] files[i].name@,
            ) is Some implies all.contains(forward_slashes(joined_path(dir, files[i].name@)->0)) by {
            let q = forward_slashes(joined_path(dir, files[i].name@)->0);
            if i < init.len() {
                assert(init[i] == files[i]);
                assert(rest.contains(q));
                let j = choose|j: int| 0 <= j < rest.len() && rest[j] == q;
                assert(all[j] == q);
            } else {
                assert(files.last() == files[i]);
                assert(all[all.len() - 1] == q);
            }
        }
    }
}

/// When `dir` holds no backslash, every path that a forced deletion
/// removes before `dir` lies inside `dir`: it begins with `dir` and goes on
/// past it.
pub proof fn law_force_delete_stays_inside(dir: Seq<char>, files: Seq<RemoteFile>)
    requires
        forall|j: int| 0 <= j < dir.len() ==> dir[j] != '\\',
    ensures
        forall|p: Seq<char>|
            #[trigger] deletion_paths(dir, files).contains(p) ==> p.len() > dir.len() && p.take(
                dir.len() as int,
            ) == dir,
{
    law_force_delete_removes_plain_files(dir, files);
    assert forall|p: Seq<char>| #[trigger] deletion_paths(dir, files).contains(p) implies p.len()
        > dir.len() && p.take(dir.len() as int) == dir by {
        let i = choose|i: int|
            0 <= i < files.len() && !files[i].is_directory && joined_path(dir, files[i].name@) is Some
                && p == forward_slashes(joined_path(dir, files[i].name@)->0);
        let name = files[i].name@;
        crate::filesystem::law_joined_path_is_one_level_below(dir, name);
        let q = joined_path(dir, name)->0;
        assert(q.take(dir.len() as int) =~= dir);
        assert(p.take(dir.len() as int) =~= forward_slashes(dir));
        assert(forward_slashes(dir) =~= dir);
    }
}

fn pair(k: &str, v: &str) -> (p: (String, String))
    ensures
        p.0@ == k@,
        p.1@ == v@,
{
    (k.to_owned(), v.to_owned())
}

impl Request {
    /// The device's status: `GET api/status`.
    pub fn status() -> (r: Request)
        ensures
            r@ == get_request("api/status"@, seq![]),
    {
        let r = Request {
            method: Method::Get,
            endpoint: "api/status".to_owned(),
            query: Vec::new(),
            payload: Payload::Nothing,
        };
        assert(r@.query =~= seq![]);
        r
    }

    /// The listing of directory `dir`: `GET api/files?path={dir}`.
    pub fn list(dir: &str) -> (r: Request)
        ensures
            r@ == get_request("api/files"@, seq![("path"@, dir@)]),
    {
        let mut query = Vec::new();
        query.push(pair("path", dir));
        let r = Request {
            method: Method::Get,
            endpoint: "api/files".to_owned(),
            query,
            payload: Payload::Nothing,
        };
        assert(r@.query =~= seq![("path"@, dir@)]);
        r
    }

    /// Creation of the directory `path`:
    /// `POST mkdir` with the fields `path={parent}` and `name={name}`.
    /// A path without `/` is refused.
    pub fn mkdir(path: &str) -> (r: Result<Request>)
        ensures
            match mkdir_fields(path@) {
                Some((parent, name)) => r matches Ok(req) && req@ == form_request(
                    "mkdir"@,
                    seq![("path"@, parent), ("name"@, name)],
                ),
                None => r matches Err(Error::Protocol(m)) && m@ == "invalid path"@,
            },
    {
        let v = chars_of(path);
        let n = v.len();
        let mut k = n;
        assert(v@.take(n as int) =~= v@);
        while k > 0 && v[k - 1] != '/'
            invariant
                k <= n == v@.len(),
                last_slash(v@) == last_slash(v@.take(k as int)),
            decreases k,
        {
            assert(v@.take(k as int).drop_last() =~= v@.take(k - 1));
            k -= 1;
        }
        if k == 0 {
            return Err(Error::Protocol("invalid path".to_owned()));
        }
        assert(last_slash(v@) == Some(k - 1));
        let parent = if k == 1 {
            let mut p = String::new();
            push_char(&mut p, '/');
            p
        } else {
            string_of(&v, 0, k - 1)
        };
        let name = string_of(&v, k, n);
        let mut form = Vec::new();
        form.push(("path".to_owned(), parent));
        form.push(("name".to_owned(), name));
        let r = Request { method: Method::Post, endpoint: "mkdir".to_owned(), query: Vec::new(), payload: Payload::Form(form) };
        assert(r@.query =~= Seq::<(Seq<char>, Seq<char>)>::empty());
        assert(v@.subrange(0, k - 1) =~= v@.take(k - 1));
        assert(v@.subrange(k as int, n as int) =~= v@.skip(k as int));
        let ghost fields = mkdir_fields(path@)->0;
        assert(pairs_view(form@) =~= seq![("path"@, fields.0), ("name"@, fields.1)]);
        Ok(r)
    }

    /// Deletion of a file or an empty directory:
    /// `POST delete` with the field `path={path}`.
    pub fn delete(path: &str) -> (r: Request)
        ensures
            r@ == form_request("delete"@, seq![("path"@, path@)]),
    {
        let mut form = Vec::new();
        form.push(pair("path", path));
        let r = Request { method: Method::Post, endpoint: "delete".to_owned(), query: Vec::new(), payload: Payload::Form(form) };
        assert(r@.query =~= Seq::<(Seq<char>, Seq<char>)>::empty());
        assert(pairs_view(form@) =~= seq![("path"@, path@)]);
        r
    }

    /// Deletion of the paths listed in `paths_json`, a JSON array of
    /// strings: `POST delete` with the field `paths={paths_json}`.
    pub fn delete_json_paths(paths_json: String) -> (r: Request)
        ensures
            r@ == form_request("delete"@, seq![("paths"@, paths_json@)]),
    {
        let ghost j = paths_json@;
        let mut form = Vec::new();
        form.push(("paths".to_owned(), paths_json));
        let r = Request { method: Method::Post, endpoint: "delete".to_owned(), query: Vec::new(), payload: Payload::Form(form) };
        assert(r@.query =~= Seq::<(Seq<char>, Seq<char>)>::empty());
        assert(pairs_view(form@) =~= seq![("paths"@, j)]);
        r
    }

    /// Deletion of several paths at once: `POST delete` with the field
    /// `paths` holding the paths as a JSON array of strings.
    pub fn delete_multiple(paths: &Vec<String>) -> (r: Result<Request>)
        ensures
            r matches Ok(req) && req@ == form_request(
                "delete"@,
                seq![("paths"@, json_string_array(paths.deep_view()))],
            ),
    {
        match to_json(paths) {
            Ok(j) => Ok(Request::delete_json_paths(j)),
            Err(e) => Err(Error::Json(e)),
        }
    }

    /// Upload of a file named `name` into `dir`:
    /// `POST upload?path={dir}` with a multipart part `file`.
    pub fn upload(dir: &str, name: &str, bytes: &[u8]) -> (r: Request)
        ensures
            r@ == (RequestView {
                method: Method::Post,
                endpoint: "upload"@,
                query: seq![("path"@, dir@)],
                payload: PayloadView::File { field: "file"@, file_name: name@, bytes: bytes@ },
            }),
    {
        let mut query = Vec::new();
        query.push(pair("path", dir));
        let r = Request {
            method: Method::Post,
            endpoint: "upload".to_owned(),
            query,
            payload: Payload::File {
                field: "file".to_owned(),
                file_name: name.to_owned(),
                bytes: vstd::slice::slice_to_vec(bytes),
            },
        };
        assert(r@.query =~= seq![("path"@, dir@)]);
        r
    }

    /// Download of the file at `path`: `GET download?path={path}`.
    pub fn download(path: &str) -> (r: Request)
        ensures
            r@ == get_request("download"@, seq![("path"@, path@)]),
    {
        let mut query = Vec::new();
        query.push(pair("path", path));
        let r = Request { method: Method::Get, endpoint: "download".to_owned(), query, payload: Payload::Nothing };
        assert(r@.query =~= seq![("path"@, path@)]);
        r
    }

    /// Renaming of the file at `path` to `name`:
    /// `POST rename` with the fields `path={path}` and `name={name}`.
    pub fn rename(path: &str, name: &str) -> (r: Request)
        ensures
            r@ == form_request("rename"@, seq![("path"@, path@), ("name"@, name@)]),
    {
        let mut form = Vec::new();
        form.push(pair("path", path));
        form.push(pair("name", name));
        let r = Request { method: Method::Post, endpoint: "rename".to_owned(), query: Vec::new(), payload: Payload::Form(form) };
        assert(r@.query =~= Seq::<(Seq<char>, Seq<char>)>::empty());
        assert(pairs_view(form@) =~= seq![("path"@, path@), ("name"@, name@)]);
        r
    }

    /// First step of the forced deletion of `dir`: its listing. The root
    /// (`/` or a lone backslash) is not a directory that may be deleted.
    pub fn force_delete_listing(dir: &str) -> (r: Request)
        requires
            !is_root(dir@),
        ensures
            force_delete_first_step(dir@) == Some(r@),
    {
        Request::list(dir)
    }

    /// Second step of the forced deletion of `dir`, once its listing `files`
    /// has come back: one deletion of every plain file in it and then of
    /// `dir` itself. Subdirectories are not descended into.
    pub fn force_delete_directory(dir: &str, files: &Vec<RemoteFile>) -> (r: Result<Request>)
        requires
            !is_root(dir@),
        ensures
            r matches Ok(req) && force_delete_second_step(dir@, files@) == Some(req@),
    {
        let paths = force_delete_paths(dir, files);
        Request::delete_multiple(&paths)
    }
}

/// The request that the forced deletion of `dir` starts with: the listing
/// of `dir`, or nothing for the root.
pub open spec fn force_delete_first_step(dir: Seq<char>) -> Option<RequestView> {
    if is_root(dir) {
        None
    } else {
        Some(get_request("api/files"@, seq![("path"@, dir)]))
    }
}

/// The request that the forced deletion of `dir` ends with, once `files`
/// has been listed: the deletion of every target, or nothing for the root.
pub open spec fn force_delete_second_step(dir: Seq<char>, files: Seq<RemoteFile>) -> Option<
    RequestView,
> {
    if is_root(dir) {
        None
    } else {
        Some(
            form_request(
                "delete"@,
                seq![("paths"@, json_string_array(force_delete_targets(dir, files)))],
            ),
        )
    }
}

/// A `GET` names its endpoint and query and has no body; a form `POST` names
/// its endpoint and fields and has no query.
pub proof fn law_request_shapes(
    endpoint: Seq<char>,
    pairs: Seq<(Seq<char>, Seq<char>)>,
)
    ensures
        get_request(endpoint, pairs).method == Method::Get,
        get_request(endpoint, pairs).endpoint == endpoint,
        get_request(endpoint, pairs).query == pairs,
        get_request(endpoint, pairs).payload == PayloadView::Nothing,
        form_request(endpoint, pairs).method == Method::Post,
        form_request(endpoint, pairs).endpoint == endpoint,
        form_request(endpoint, pairs).query.len() == 0,
        form_request(endpoint, pairs).payload == PayloadView::Form(pairs),
{
}

/// `mkdir` of `parent/name`, where `name` holds no `/`, creates `name` in
/// `parent`, and in the root `/` when `parent` is empty: the parent sent is
/// never empty, and the name is everything after the last `/`.
pub proof fn law_mkdir_parent_and_name(parent: Seq<char>, name: Seq<char>)
    requires
        forall|j: int| 0 <= j < name.len() ==> name[j] != '/',
    ensures
        mkdir_fields(parent + seq!['/'] + name) == Some(
            (if parent.len() == 0 {
                seq!['/']
            } else {
                parent
            }, name),
        ),
{
    let path = parent + seq!['/'] + name;
    let p = parent.len() as int;
    assert(path[p] == '/');
    lemma_last_slash(path);
    match last_slash(path) {
        Some(k) => {
            if k > p {
                assert(path[k] == name[k - p - 1]);
            }
            if k < p {
                assert(path[p] == '/');
            }
            assert(k == p);
            assert(path.take(p) =~= parent);
            assert(path.skip(p + 1) =~= name);
        },
        None => {
            assert(path[p] != '/');
        },
    }
}

/// The first step of forcing the deletion of a directory other than the
/// root lists that directory.
pub proof fn law_force_delete_lists_dir_first(dir: Seq<char>)
    requires
        !is_root(dir),
    ensures
        force_delete_first_step(dir) == Some(
            RequestView {
                method: Method::Get,
                endpoint: "api/files"@,
                query: seq![("path"@, dir)],
                payload: PayloadView::Nothing,
            },
        ),
{
}

/// The second step of forcing the deletion of a directory other than the
/// root sends one `POST delete` whose `paths` field reads back as: every
/// plain file of the listing whose name `safe_join` accepts, in listing
/// order, joined onto `dir` with backslashes made forward slashes, and then
/// `dir` itself.
pub proof fn law_force_delete_deletes_every_plain_file_then_dir(
    dir: Seq<char>,
    files: Seq<RemoteFile>,
)
    requires
        !is_root(dir),
    ensures
        ({
            let paths = files.filter_map(
                |f: RemoteFile|
                    if !f.is_directory && joined_path(dir, f.name@) is Some {
                        Some(forward_slashes(joined_path(dir, f.name@)->0))
                    } else {
                        None
                    },
            ).push(dir);
            &&& force_delete_second_step(dir, files) == Some(
                RequestView {
                    method: Method::Post,
                    endpoint: "delete"@,
                    query: Seq::empty(),
                    payload: PayloadView::Form(seq![("paths"@, json_string_array(paths))]),
                },
            )
            &&& crate::json::read_string_array(json_string_array(paths)) == Some(paths)
        }),
{
    lemma_deletion_paths_filter_map(dir, files);
    crate::json::law_json_string_array_reads_back(force_delete_targets(dir, files));
}

proof fn lemma_deletion_paths_filter_map(dir: Seq<char>, files: Seq<RemoteFile>)
    ensures
        deletion_paths(dir, files) == files.filter_map(
            |f: RemoteFile|
                if !f.is_directory && joined_path(dir, f.name@) is Some {
                    Some(forward_slashes(joined_path(dir, f.name@)->0))
                } else {
                    None
                },
        ),
    decreases files.len(),
{
    if files.len() > 0 {
        lemma_deletion_paths_filter_map(dir, files.drop_last());
        let f = files.last();
        if !f.is_directory && joined_path(dir, f.name@) is Some {
            assert(deletion_paths(dir, files) =~= deletion_paths(dir, files.drop_last()) + seq![
                forward_slashes(joined_path(dir, f.name@)->0),
            ]);
        }
    }
}

/// A forced deletion of the root sends nothing: neither step has a request
/// for `/` or a lone backslash, whatever the listing, and both steps leave
/// the root out of what they accept.
pub proof fn law_force_delete_never_sends_for_root(dir: Seq<char>, files: Seq<RemoteFile>)
    requires
        dir == seq!['/'] || dir == seq!['\\'],
    ensures
        force_delete_first_step(dir) is None,
        force_delete_second_step(dir, files) is None,
{
}

/// The paths that the forced deletion of `dir` removes, given its listing
/// `files`: every plain file with a single-component name, joined onto
/// `dir`, then `dir` itself.
pub fn force_delete_paths(dir: &str, files: &Vec<RemoteFile>) -> (r: Vec<String>)
    requires
        !is_root(dir@),
    ensures
        r.deep_view() == force_delete_targets(dir@, files@),
{
    let mut out: Vec<String> = Vec::new();
    let mut i: usize = 0;
    while i < files.len()
        invariant
            i <= files@.len(),
            out.deep_view() == deletion_paths(dir@, files@.take(i as int)),
        decreases files@.len() - i,
    {
        let f = &files[i];
        assert(files@.take(i + 1).drop_last() =~= files@.take(i as int));
        assert(files@.take(i + 1).last() == files@[i as int]);
        if !f.is_directory {
            match safe_join(dir, f.name.as_str()) {
                Some(p) => {
                    let s = with_forward_slashes(p.as_str());
                    out.push(s);
                },
                None => {},
            }
        }
        i += 1;
    }
    assert(files@.take(files@.len() as int) =~= files@);
    out.push(dir.to_owned());
    out
}

} // verus!
