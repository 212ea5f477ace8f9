//! The object storage handler: its routing table and how a request path is
//! routed to the fetch, upload or delete action.

use crate::codec::{form_urlencoded_pairs, header_text, query_pairs, spec_header_text, utf8_lossy};
use crate::config::Config;
use crate::context::Context;
use crate::text::{bytes_equal, bytes_start_with, lemma_utf8_rest_after_prefix, spec_starts_with, text_equal};
use std::sync::Arc;
use vstd::prelude::*;
use vstd::utf8::{decode_utf8, encode_utf8, encode_utf8_valid_utf8, is_char_boundary};

verus! {

/// Paths under this prefix are public: the server's access check lets them
/// pass without an access token. The value is this crate's own choice of
/// public path.
pub const BLOB_PREFIX: &'static str = "/blob/";

/// Requests whose path starts with `path_prefix` fetch the object whose key
/// is `key_prefix` followed by the rest of the path.
pub struct GetMapping {
    path_prefix: String,
    key_prefix: String,
}

/// Requests to exactly `path` upload an object; `key_prefix` goes with it.
pub struct UploadMapping {
    path: String,
    key_prefix: String,
}

impl GetMapping {
    /// The mapping as a pair of texts: path prefix, key prefix.
    pub closed spec fn view_pair(&self) -> (Seq<char>, Seq<char>) {
        (self.path_prefix@, self.key_prefix@)
    }
}

impl UploadMapping {
    /// The mapping as a pair of texts: path, key prefix.
    pub closed spec fn view_pair(&self) -> (Seq<char>, Seq<char>) {
        (self.path@, self.key_prefix@)
    }
}

/// Where a request goes.
#[derive(Debug)]
pub enum Route {
    /// Fetch the object `key`; `filename` is the `filename` query parameter.
    Get { key: String, filename: Option<String> },
    /// Upload, with the mapping's key prefix and the `X-Hash` header.
    Upload { key_prefix: String, hash: String },
    /// Delete, with the `X-Hash` header.
    Delete { hash: String },
    /// Status 400: an upload or delete without a readable `X-Hash` header.
    BadRequest,
    /// Status 404: no mapping applies, or the key would be empty.
    NotFound,
}

/// The value of the last pair named `name` (a map built from the pairs in
/// order keeps the last value of each name).
pub open spec fn spec_last_value(pairs: Seq<(Seq<char>, Seq<char>)>, name: Seq<char>) -> Option<Seq<char>>
    decreases pairs.len(),
{
    if pairs.len() == 0 {
        None
    } else if pairs.last().0 == name {
        Some(pairs.last().1)
    } else {
        spec_last_value(pairs.drop_last(), name)
    }
}

/// The `filename` parameter of a query string, if there is one.
pub open spec fn spec_filename(query: Option<Seq<char>>) -> Option<Seq<char>> {
    match query {
        Some(q) => spec_last_value(form_urlencoded_pairs(encode_utf8(q)), "filename"@),
        None => None,
    }
}

/// The position of the first get mapping whose prefix begins the route, at
/// or after `from`.
pub open spec fn spec_first_get(maps: Seq<(Seq<char>, Seq<char>)>, route: Seq<u8>, from: int) -> Option<int>
    decreases maps.len() - from,
{
    if from < 0 || from >= maps.len() {
        None
    } else if spec_starts_with(route, encode_utf8(maps[from].0)) {
        Some(from)
    } else {
        spec_first_get(maps, route, from + 1)
    }
}

/// The position of the first upload mapping whose path is the route, at or
/// after `from`.
pub open spec fn spec_first_upload(maps: Seq<(Seq<char>, Seq<char>)>, route: Seq<u8>, from: int) -> Option<int>
    decreases maps.len() - from,
{
    if from < 0 || from >= maps.len() {
        None
    } else if encode_utf8(maps[from].0) == route {
        Some(from)
    } else {
        spec_first_upload(maps, route, from + 1)
    }
}

/// The key of the object fetched through a get mapping: the key prefix,
/// then the route after the path prefix.
pub open spec fn spec_get_key(map: (Seq<char>, Seq<char>), route: Seq<u8>) -> Seq<char> {
    map.1 + decode_utf8(route.subrange(encode_utf8(map.0).len() as int, route.len() as int))
}

/// The bytes of the route: the path after the handler's prefix.
pub open spec fn spec_route_bytes(path: Seq<char>, prefix: Option<Seq<char>>) -> Seq<u8> {
    let plen = match prefix {
        Some(p) => encode_utf8(p).len(),
        None => 0,
    };
    encode_utf8(path).subrange(plen as int, encode_utf8(path).len() as int)
}

/// The text of the `X-Hash` header, when it can be read.
pub open spec fn spec_hash_header(x_hash: Option<Seq<u8>>) -> Option<Seq<char>> {
    match x_hash {
        Some(b) => spec_header_text(b),
        None => None,
    }
}

/// A call that changes the routing table, with its text arguments.
pub enum MappingCall {
    AddGet(Seq<char>, Seq<char>),
    AddUpload(Seq<char>, Seq<char>),
    SetDelete(Seq<char>),
}

/// The paths served after a run of calls on a new handler: the path of each
/// `add_get_mapping` and `add_upload_mapping` call, in call order.
pub open spec fn spec_served_paths(calls: Seq<MappingCall>) -> Seq<Seq<char>>
    decreases calls.len(),
{
    if calls.len() == 0 {
        Seq::empty()
    } else {
        let before = spec_served_paths(calls.drop_last());
        match calls.last() {
            MappingCall::AddGet(p, _) => before.push(p),
            MappingCall::AddUpload(p, _) => before.push(p),
            MappingCall::SetDelete(_) => before,
        }
    }
}

/// The handler: its context and routing table, and the paths it serves
/// (`namespace`), in the order they were added.
pub struct OssHandler<F: Fn(i32) -> i32> {
    context: Arc<Context<F>>,
    get_mapping: Vec<GetMapping>,
    upload_mapping: Vec<UploadMapping>,
    delete_path: Option<String>,
    namespaces: Vec<String>,
    calls: Ghost<Seq<MappingCall>>,
}

/// Calls `Arc::clone`: a new handle to the same value.
#[verifier::external_body]
fn arc_clone<T>(a: &Arc<T>) -> (r: Arc<T>)
    ensures
        *r == **a,
{
    Arc::clone(a)
}

impl<F: Fn(i32) -> i32> OssHandler<F> {
    /// The get mappings, in the order they were added.
    pub closed spec fn get_mappings(&self) -> Seq<(Seq<char>, Seq<char>)> {
        self.get_mapping@.map_values(|m: GetMapping| m.view_pair())
    }

    /// The upload mappings, in the order they were added.
    pub closed spec fn upload_mappings(&self) -> Seq<(Seq<char>, Seq<char>)> {
        self.upload_mapping@.map_values(|m: UploadMapping| m.view_pair())
    }

    /// The delete path, if one was set.
    pub closed spec fn delete_path(&self) -> Option<Seq<char>> {
        match self.delete_path {
            Some(p) => Some(p@),
            None => None,
        }
    }

    /// The paths the handler serves, in the order they were added.
    pub closed spec fn namespaces(&self) -> Seq<Seq<char>> {
        self.namespaces@.map_values(|s: String| s@)
    }

    /// The calls made on the routing table since the handler was made.
    pub closed spec fn calls(&self) -> Seq<MappingCall> {
        self.calls@
    }

    /// The handler's context.
    pub closed spec fn context_value(&self) -> Context<F> {
        *self.context
    }

    /// Every get prefix and every upload path is among the served paths.
    pub open spec fn mapped_paths_served(&self) -> bool {
        &&& forall|i: int|
            0 <= i < self.get_mappings().len() ==> self.namespaces().contains(
                #[trigger] self.get_mappings()[i].0,
            )
        &&& forall|i: int|
            0 <= i < self.upload_mappings().len() ==> self.namespaces().contains(
                #[trigger] self.upload_mappings()[i].0,
            )
    }

    /// Whether `path` is the prefix of a get mapping or the path of an
    /// upload mapping.
    pub open spec fn is_mapped_path(&self, path: Seq<char>) -> bool {
        (exists|j: int| 0 <= j < self.get_mappings().len() && self.get_mappings()[j].0 == path)
            || (exists|j: int| 0 <= j < self.upload_mappings().len() && self.upload_mappings()[j].0 == path)
    }

    /// Every served path is a get prefix or an upload path.
    pub open spec fn served_paths_mapped(&self) -> bool {
        forall|i: int| 0 <= i < self.namespaces().len() ==> self.is_mapped_path(#[trigger] self.namespaces()[i])
    }

    /// One served path per mapping, the served paths are exactly the mapped
    /// ones, and they follow the calls made.
    pub open spec fn wf(&self) -> bool {
        &&& self.namespaces() == spec_served_paths(self.calls())
        &&& self.namespaces().len() == self.get_mappings().len() + self.upload_mappings().len()
        &&& self.mapped_paths_served()
        &&& self.served_paths_mapped()
    }

    /// Makes a handler with an empty routing table.
    pub fn try_init_from_config(config: Config, adjust_error_code: F) -> (r: OssHandler<F>)
        requires
            forall|c: i32| #[trigger] adjust_error_code.requires((c,)),
        ensures
            r.wf(),
            r.context_value().wf(),
            r.context_value().settings() == config,
            r.context_value().adjuster() == adjust_error_code,
            r.get_mappings() == Seq::<(Seq<char>, Seq<char>)>::empty(),
            r.upload_mappings() == Seq::<(Seq<char>, Seq<char>)>::empty(),
            r.delete_path() is None,
            r.namespaces() == Seq::<Seq<char>>::empty(),
            r.calls() == Seq::<MappingCall>::empty(),
    {
        let context = Context::try_init_from_config(config, adjust_error_code);
        let r = OssHandler {
            context: Arc::new(context),
            get_mapping: Vec::new(),
            upload_mapping: Vec::new(),
            delete_path: None,
            namespaces: Vec::new(),
            calls: Ghost(Seq::empty()),
        };
        assert(r.get_mappings() =~= Seq::<(Seq<char>, Seq<char>)>::empty());
        assert(r.upload_mappings() =~= Seq::<(Seq<char>, Seq<char>)>::empty());
        assert(r.namespaces() =~= Seq::<Seq<char>>::empty());
        r
    }

    /// A handle to the handler's context.
    pub fn context(&self) -> (r: Arc<Context<F>>)
        ensures
            *r == self.context_value(),
    {
        arc_clone(&self.context)
    }

    /// Adds a get mapping after the others, and its path prefix to the
    /// served paths.
    pub fn add_get_mapping(&mut self, path_prefix: String, key_prefix: String) -> (r: &mut Self)
        ensures
            old(self).wf() ==> r.wf(),
            r.get_mappings() == old(self).get_mappings().push((path_prefix@, key_prefix@)),
            r.upload_mappings() == old(self).upload_mappings(),
            r.delete_path() == old(self).delete_path(),
            r.namespaces() == old(self).namespaces().push(path_prefix@),
            r.calls() == old(self).calls().push(MappingCall::AddGet(path_prefix@, key_prefix@)),
            r.context_value() == old(self).context_value(),
            *final(self) == *final(r),
    {
        let namespace = path_prefix.clone();
        proof {
            self.calls@ = self.calls@.push(MappingCall::AddGet(path_prefix@, key_prefix@));
            assert(self.calls().drop_last() =~= old(self).calls());
        }
        self.get_mapping.push(GetMapping { path_prefix, key_prefix });
        self.namespaces.push(namespace);
        assert(self.get_mappings() =~= old(self).get_mappings().push((path_prefix@, key_prefix@)));
        assert(self.namespaces() =~= old(self).namespaces().push(path_prefix@));
        proof {
            if old(self).wf() {
                assert(self.namespaces().drop_last() =~= old(self).namespaces());
                assert(self.get_mappings().drop_last() =~= old(self).get_mappings());
                lemma_push_keeps_served(*old(self), *self);
            }
        }
        self
    }

    /// Adds an upload mapping after the others, and its path to the served
    /// paths.
    pub fn add_upload_mapping(&mut self, path: String, key_prefix: String) -> (r: &mut Self)
        ensures
            old(self).wf() ==> r.wf(),
            r.upload_mappings() == old(self).upload_mappings().push((path@, key_prefix@)),
            r.get_mappings() == old(self).get_mappings(),
            r.delete_path() == old(self).delete_path(),
            r.namespaces() == old(self).namespaces().push(path@),
            r.calls() == old(self).calls().push(MappingCall::AddUpload(path@, key_prefix@)),
            r.context_value() == old(self).context_value(),
            *final(self) == *final(r),
    {
        let namespace = path.clone();
        proof {
            self.calls@ = self.calls@.push(MappingCall::AddUpload(path@, key_prefix@));
            assert(self.calls().drop_last() =~= old(self).calls());
        }
        self.upload_mapping.push(UploadMapping { path, key_prefix });
        self.namespaces.push(namespace);
        assert(self.upload_mappings() =~= old(self).upload_mappings().push((path@, key_prefix@)));
        assert(self.namespaces() =~= old(self).namespaces().push(path@));
        proof {
            if old(self).wf() {
                assert(self.namespaces().drop_last() =~= old(self).namespaces());
                assert(self.upload_mappings().drop_last() =~= old(self).upload_mappings());
                lemma_push_keeps_served(*old(self), *self);
            }
        }
        self
    }

    /// Sets the delete path, replacing an earlier one. The served paths do
    /// not change.
    pub fn set_delete_path(&mut self, delete_path: String) -> (r: &mut Self)
        ensures
            old(self).wf() ==> r.wf(),
            r.delete_path() == Some(delete_path@),
            r.get_mappings() == old(self).get_mappings(),
            r.upload_mappings() == old(self).upload_mappings(),
            r.namespaces() == old(self).namespaces(),
            r.calls() == old(self).calls().push(MappingCall::SetDelete(delete_path@)),
            r.context_value() == old(self).context_value(),
            *final(self) == *final(r),
    {
        let ghost path = delete_path@;
        self.delete_path = Some(delete_path);
        proof {
            self.calls@ = self.calls@.push(MappingCall::SetDelete(path));
            assert(self.calls().drop_last() =~= old(self).calls());
        }
        assert(self.get_mappings() == old(self).get_mappings());
        assert(self.upload_mappings() == old(self).upload_mappings());
        assert(self.namespaces() == old(self).namespaces());
        self
    }

    /// The paths the handler serves.
    pub fn namespace(&self) -> (r: &[String])
        ensures
            r@.map_values(|s: String| s@) == self.namespaces(),
    {
        self.namespaces.as_slice()
    }

    /// Where a request goes: `path` is the request path, `query` its query
    /// string, `prefix` the part of the path that led to this handler, and
    /// `x_hash` the bytes of the `X-Hash` header.
    ///
    /// The first get mapping whose prefix begins the route (the path after
    /// `prefix`) wins; then the first upload mapping whose path is the
    /// route; then the delete path. Uploads and deletes need a readable
    /// `X-Hash` header.
    #[verifier::loop_isolation(false)]
    pub fn route(&self, path: &str, query: Option<&str>, prefix: Option<&str>, x_hash: Option<&[u8]>) -> (r: Route)
        requires
            match prefix {
                Some(p) => is_char_boundary(encode_utf8(path@), encode_utf8(p@).len() as int),
                None => true,
            },
        ensures
            ({
                let route = spec_route_bytes(path@, match prefix {
                    Some(p) => Some(p@),
                    None => None,
                });
                let hash = spec_hash_header(match x_hash {
                    Some(b) => Some(b@),
                    None => None,
                });
                match spec_first_get(self.get_mappings(), route, 0) {
                    Some(i) => {
                        let key = spec_get_key(self.get_mappings()[i], route);
                        if key.len() == 0 {
                            r is NotFound
                        } else {
                            r matches Route::Get { key: k, filename } && k@ == key
                                && match filename {
                                Some(f) => spec_filename(match query {
                                    Some(q) => Some(q@),
                                    None => None,
                                }) == Some(f@),
                                None => spec_filename(match query {
                                    Some(q) => Some(q@),
                                    None => None,
                                }) is None,
                            }
                        }
                    },
                    None => match spec_first_upload(self.upload_mappings(), route, 0) {
                        Some(j) => match hash {
                            Some(h) => r matches Route::Upload { key_prefix, hash: rh }
                                && key_prefix@ == self.upload_mappings()[j].1 && rh@ == h,
                            None => r is BadRequest,
                        },
                        None => if self.delete_path() matches Some(d) && encode_utf8(d) == route {
                            match hash {
                                Some(h) => r matches Route::Delete { hash: rh } && rh@ == h,
                                None => r is BadRequest,
                            }
                        } else {
                            r is NotFound
                        },
                    },
                }
            }),
    {
        let path_len = path.as_bytes().len();
        let plen = match prefix {
            Some(p) => p.as_bytes().len(),
            None => 0,
        };
        proof {
            encode_utf8_valid_utf8(path@);
            if prefix is None {
                vstd::utf8::is_char_boundary_start_end_of_seq(encode_utf8(path@));
            }
        }
        let (_, route) = path.split_at(plen);
        let route_bytes = route.as_bytes();
        let ghost spec_route = spec_route_bytes(path@, match prefix {
            Some(p) => Some(p@),
            None => None,
        });
        assert(route_bytes@ == spec_route);
        let ghost maps = self.get_mappings();
        let mut i: usize = 0;
        while i < self.get_mapping.len()
            invariant
                i <= self.get_mapping@.len(),
                maps == self.get_mappings(),
                maps.len() == self.get_mapping@.len(),
                route_bytes@ == spec_route,
                route_bytes@ == encode_utf8(route@),
                spec_first_get(maps, spec_route, 0) == spec_first_get(maps, spec_route, i as int),
            decreases self.get_mapping@.len() - i,
        {
            let mapping = &self.get_mapping[i];
            assert(maps[i as int] == mapping.view_pair());
            let pp_bytes = mapping.path_prefix.as_str().as_bytes();
            assert(pp_bytes@ == encode_utf8(maps[i as int].0));
            if bytes_start_with(route_bytes, pp_bytes) {
                let pp_len = pp_bytes.len();
                let (_, rest) = route_bytes.split_at(pp_len);
                proof {
                    encode_utf8_valid_utf8(route@);
                    encode_utf8_valid_utf8(mapping.path_prefix@);
                    lemma_utf8_rest_after_prefix(route_bytes@, pp_bytes@);
                    assert(spec_first_get(maps, spec_route, i as int) == Some(i as int));
                    assert(rest@ == spec_route.subrange(encode_utf8(maps[i as int].0).len() as int, spec_route.len() as int));
                }
                let tail = utf8_lossy(rest);
                let key = mapping.key_prefix.clone().concat(tail.as_str());
                assert(key@ == spec_get_key(maps[i as int], spec_route));
                assert(spec_first_get(self.get_mappings(), spec_route, 0) == Some(i as int));
                if key.as_str().is_empty() {
                    assert(spec_get_key(self.get_mappings()[i as int], spec_route).len() == 0);
                    return Route::NotFound;
                }
                let filename = match query {
                    Some(q) => last_filename(q),
                    None => None,
                };
                return Route::Get { key, filename };
            }
            i = i + 1;
        }
        let hash = match x_hash {
            Some(b) => header_text(b),
            None => None,
        };
        let ghost umaps = self.upload_mappings();
        let mut j: usize = 0;
        while j < self.upload_mapping.len()
            invariant
                j <= self.upload_mapping@.len(),
                umaps == self.upload_mappings(),
                umaps.len() == self.upload_mapping@.len(),
                route_bytes@ == spec_route,
                spec_first_upload(umaps, spec_route, 0) == spec_first_upload(umaps, spec_route, j as int),
            decreases self.upload_mapping@.len() - j,
        {
            let mapping = &self.upload_mapping[j];
            assert(umaps[j as int] == mapping.view_pair());
            if bytes_equal(route_bytes, mapping.path.as_str().as_bytes()) {
                return match hash {
                    Some(h) => Route::Upload { key_prefix: mapping.key_prefix.clone(), hash: h },
                    None => Route::BadRequest,
                };
            }
            j = j + 1;
        }
        match &self.delete_path {
            Some(d) => {
                if bytes_equal(route_bytes, d.as_str().as_bytes()) {
                    match hash {
                        Some(h) => Route::Delete { hash: h },
                        None => Route::BadRequest,
                    }
                } else {
                    Route::NotFound
                }
            },
            None => Route::NotFound,
        }
    }
}

/// Adding one mapping and its path keeps every mapping's path served and
/// every served path a mapping's.
proof fn lemma_push_keeps_served<F: Fn(i32) -> i32>(a: OssHandler<F>, b: OssHandler<F>)
    requires
        a.wf(),
        b.namespaces() == spec_served_paths(b.calls()),
        b.namespaces().len() == a.namespaces().len() + 1,
        b.namespaces().drop_last() == a.namespaces(),
        (b.get_mappings() == a.get_mappings() && b.upload_mappings().len() == a.upload_mappings().len() + 1
            && b.upload_mappings().drop_last() == a.upload_mappings()
            && b.upload_mappings().last().0 == b.namespaces().last()) || (b.upload_mappings()
            == a.upload_mappings() && b.get_mappings().len() == a.get_mappings().len() + 1
            && b.get_mappings().drop_last() == a.get_mappings() && b.get_mappings().last().0
            == b.namespaces().last()),
    ensures
        b.wf(),
{
    let n = a.namespaces().len() as int;
    assert forall|i: int| 0 <= i < b.get_mappings().len() implies b.namespaces().contains(
        #[trigger] b.get_mappings()[i].0,
    ) by {
        if i < a.get_mappings().len() {
            assert(b.get_mappings()[i] == a.get_mappings()[i]);
            assert(a.namespaces().contains(a.get_mappings()[i].0));
            let k = choose|k: int| 0 <= k < a.namespaces().len() && a.namespaces()[k] == a.get_mappings()[i].0;
            assert(b.namespaces()[k] == a.namespaces()[k]);
        } else {
            assert(b.namespaces()[n] == b.get_mappings()[i].0);
        }
    }
    assert forall|i: int| 0 <= i < b.upload_mappings().len() implies b.namespaces().contains(
        #[trigger] b.upload_mappings()[i].0,
    ) by {
        if i < a.upload_mappings().len() {
            assert(b.upload_mappings()[i] == a.upload_mappings()[i]);
            assert(a.namespaces().contains(a.upload_mappings()[i].0));
            let k = choose|k: int| 0 <= k < a.namespaces().len() && a.namespaces()[k] == a.upload_mappings()[i].0;
            assert(b.namespaces()[k] == a.namespaces()[k]);
        } else {
            assert(b.namespaces()[n] == b.upload_mappings()[i].0);
        }
    }
    assert forall|i: int| 0 <= i < b.namespaces().len() implies b.is_mapped_path(#[trigger] b.namespaces()[i]) by {
        if i < n {
            assert(b.namespaces()[i] == a.namespaces()[i]);
            assert(a.is_mapped_path(a.namespaces()[i]));
            if exists|j: int| 0 <= j < a.get_mappings().len() && a.get_mappings()[j].0 == a.namespaces()[i] {
                let j = choose|j: int| 0 <= j < a.get_mappings().len() && a.get_mappings()[j].0 == a.namespaces()[i];
                assert(b.get_mappings()[j] == a.get_mappings()[j]);
            } else {
                let j = choose|j: int| 0 <= j < a.upload_mappings().len() && a.upload_mappings()[j].0 == a.namespaces()[i];
                assert(b.upload_mappings()[j] == a.upload_mappings()[j]);
            }
        } else {
            if b.get_mappings() == a.get_mappings() {
                assert(b.namespaces()[i] == b.upload_mappings()[b.upload_mappings().len() - 1].0);
            } else {
                assert(b.namespaces()[i] == b.get_mappings()[b.get_mappings().len() - 1].0);
            }
        }
    }
}

/// The served paths (what `namespace` reports) are the paths of the
/// `add_get_mapping` and `add_upload_mapping` calls made since the handler
/// was made, in call order; every one of them is a mapped path and every
/// mapped path is among them.
pub proof fn lemma_served_paths_are_mapped<F: Fn(i32) -> i32>(h: OssHandler<F>)
    requires
        h.wf(),
    ensures
        h.namespaces() == spec_served_paths(h.calls()),
        h.mapped_paths_served(),
        h.served_paths_mapped(),
{
}

/// What `spec_first_get` finds is a mapping whose prefix begins the route.
proof fn lemma_first_get_found(maps: Seq<(Seq<char>, Seq<char>)>, route: Seq<u8>, from: int)
    requires
        spec_first_get(maps, route, from) is Some,
    ensures
        ({
            let i = spec_first_get(maps, route, from)->0;
            from <= i < maps.len() && spec_starts_with(route, encode_utf8(maps[i].0))
        }),
    decreases maps.len() - from,
{
    if from >= 0 && from < maps.len() && !spec_starts_with(route, encode_utf8(maps[from].0)) {
        lemma_first_get_found(maps, route, from + 1);
    }
}

/// An upload is routed only on an exact match: the upload mapping chosen
/// is the first one whose path, in UTF-8, is byte for byte the route (the
/// path after the handler's prefix), and where no upload mapping's path is
/// the route, none is chosen.
pub proof fn lemma_upload_route_is_exact(maps: Seq<(Seq<char>, Seq<char>)>, route: Seq<u8>)
    ensures
        match spec_first_upload(maps, route, 0) {
            Some(j) => 0 <= j < maps.len() && encode_utf8(maps[j].0) == route && forall|k: int|
                0 <= k < j ==> encode_utf8(#[trigger] maps[k].0) != route,
            None => forall|k: int| 0 <= k < maps.len() ==> encode_utf8(#[trigger] maps[k].0) != route,
        },
{
    lemma_first_upload_from(maps, route, 0);
}

proof fn lemma_first_upload_from(maps: Seq<(Seq<char>, Seq<char>)>, route: Seq<u8>, from: int)
    requires
        0 <= from,
    ensures
        match spec_first_upload(maps, route, from) {
            Some(j) => from <= j < maps.len() && encode_utf8(maps[j].0) == route && forall|k: int|
                from <= k < j ==> encode_utf8(#[trigger] maps[k].0) != route,
            None => forall|k: int| from <= k < maps.len() ==> encode_utf8(#[trigger] maps[k].0) != route,
        },
    decreases maps.len() - from,
{
    if from < maps.len() && encode_utf8(maps[from].0) != route {
        lemma_first_upload_from(maps, route, from + 1);
    }
}

/// A request that is routed to a fetch has a path that begins, after the
/// handler's prefix, with one of the paths the handler serves.
pub proof fn lemma_fetch_routes_are_served<F: Fn(i32) -> i32>(h: OssHandler<F>, route: Seq<u8>)
    requires
        h.wf(),
        spec_first_get(h.get_mappings(), route, 0) is Some,
    ensures
        exists|k: int|
            0 <= k < h.namespaces().len() && spec_starts_with(route, encode_utf8(#[trigger] h.namespaces()[k])),
{
    lemma_first_get_found(h.get_mappings(), route, 0);
    let i = spec_first_get(h.get_mappings(), route, 0)->0;
    assert(h.namespaces().contains(h.get_mappings()[i].0));
    let k = choose|k: int| 0 <= k < h.namespaces().len() && h.namespaces()[k] == h.get_mappings()[i].0;
    assert(spec_starts_with(route, encode_utf8(h.namespaces()[k])));
}

/// The `filename` parameter of a query string.
#[verifier::loop_isolation(false)]
fn last_filename(query: &str) -> (r: Option<String>)
    ensures
        match r {
            Some(f) => spec_filename(Some(query@)) == Some(f@),
            None => spec_filename(Some(query@)) is None,
        },
{
    let pairs = query_pairs(query.as_bytes());
    let ghost named = form_urlencoded_pairs(encode_utf8(query@));
    let mut k: usize = pairs.len();
    assert(named.subrange(0, k as int) =~= named);
    while k > 0
        invariant
            k <= pairs@.len(),
            pairs@.len() == named.len(),
            forall|m: int| 0 <= m < pairs@.len() ==> (#[trigger] pairs@[m]).0@ == named[m].0 && pairs@[m].1@ == named[m].1,
            spec_last_value(named, "filename"@) == spec_last_value(named.subrange(0, k as int), "filename"@),
        decreases k,
    {
        let idx = k - 1;
        assert(named.subrange(0, k as int).drop_last() =~= named.subrange(0, idx as int));
        if text_equal(pairs[idx].0.as_str(), "filename") {
            assert(named.subrange(0, k as int).last() == named[idx as int]);
            assert(named[idx as int].0 == "filename"@);
            assert(spec_last_value(named.subrange(0, k as int), "filename"@) == Some(named[idx as int].1));
            assert(spec_filename(Some(query@)) == Some(named[idx as int].1));
            return Some(pairs[idx].1.clone());
        }
        k = idx;
    }
    None
}

} // verus!
