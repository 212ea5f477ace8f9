//! Storage actions: checking an uploaded multipart form, and deciding the
//! responses of the fetch, upload and delete actions.
//!
//! Reading the request body and talking to the object store are I/O and
//! stay with the caller; each decision the actions make is a function here.

use crate::codec::{
    base64_encode, base64_standard_encode, header_text, header_value_accepts, http_date, http_date_representable, smithy_http_date, spec_header_value_ok,
    multipart_boundary, parse_boundary, spec_header_text, parse_u64_decimal, sha512_absorbed, sha512_digest,
    sha512_finished, sha512_input, sha512_new, sha512_result, spec_parse_u64, utf8_string,
};
use crate::context::{common_error, param_format_error, ApiError, COMMON_ERROR_CODE};
use crate::text::text_equal;
use vstd::prelude::*;
use vstd::utf8::{decode_utf8, valid_utf8};

verus! {

// ---------------------------------------------------------------------------
// Multipart upload
// ---------------------------------------------------------------------------

/// Why an uploaded form was refused.
#[derive(Clone, Copy, Debug, PartialEq, Eq, Structural)]
pub enum UploadError {
    /// The `size` field is not a decimal `u64`.
    InvalidSize,
    /// The `size` field is 0.
    EmptyFile,
    /// The file field came before any `size` field.
    MissingSize,
    /// The file has another length than the `size` field says.
    SizeMismatch,
    /// The SHA-512 of the file, in base64, is not the expected hash.
    HashMismatch,
    /// A named text field is not UTF-8; the whole form is refused at once.
    InvalidText,
    /// The form has no file field named `file`.
    NoFileField,
}

impl UploadError {
    /// The text logged for this error.
    pub fn message(&self) -> (r: &'static str)
        ensures
            r@ == spec_upload_error_message(*self),
    {
        match self {
            UploadError::InvalidSize => "size is not a positive integer",
            UploadError::EmptyFile => "Empty file is not allowed",
            UploadError::MissingSize => "Field \"size\"、\"sha512\" or \"token\" not found.",
            UploadError::SizeMismatch => "File size not match",
            UploadError::HashMismatch => "Sha512 of content is invalid",
            UploadError::InvalidText => "invalid utf-8 in form field",
            UploadError::NoFileField => "Field \"file\" not found.",
        }
    }
}

/// The text logged for each upload error.
pub open spec fn spec_upload_error_message(e: UploadError) -> Seq<char> {
    match e {
        UploadError::InvalidSize => "size is not a positive integer"@,
        UploadError::EmptyFile => "Empty file is not allowed"@,
        UploadError::MissingSize => "Field \"size\"、\"sha512\" or \"token\" not found."@,
        UploadError::SizeMismatch => "File size not match"@,
        UploadError::HashMismatch => "Sha512 of content is invalid"@,
        UploadError::InvalidText => "invalid utf-8 in form field"@,
        UploadError::NoFileField => "Field \"file\" not found."@,
    }
}

/// What the caller knows of a form field before reading its data.
pub struct FieldHead {
    /// Whether the field carries a file name.
    pub has_file_name: bool,
    /// The field's content type, if it has one.
    pub content_type: Option<String>,
    /// The field's name, if it has one.
    pub name: Option<String>,
}

/// What the caller does with the data of a field.
pub enum FieldAction {
    /// Read the data and throw it away.
    Drain,
    /// Read all the data and hand it to `UploadSession::text_field`.
    CollectText { name: String },
    /// The field is the file: learn whether an object named `key` (the
    /// expected hash) exists already, feed the data (stored under `key` on
    /// the way if it does not exist) into a `FileCheck` made for
    /// `content_length`, and hand that to `UploadSession::finish_file`.
    CheckFile { content_length: u64, content_type: String, key: String },
}

/// A field head as values: has a file name, content type, name.
pub struct HeadView {
    pub has_file_name: bool,
    pub content_type: Option<Seq<char>>,
    pub name: Option<Seq<char>>,
}

/// A field action as values.
pub enum ActionView {
    Drain,
    CollectText(Seq<char>),
    CheckFile(u64, Seq<char>, Seq<char>),
}

impl FieldHead {
    /// The head as values.
    pub open spec fn view(&self) -> HeadView {
        HeadView {
            has_file_name: self.has_file_name,
            content_type: match self.content_type {
                Some(t) => Some(t@),
                None => None,
            },
            name: match self.name {
                Some(n) => Some(n@),
                None => None,
            },
        }
    }
}

impl FieldAction {
    /// The action as values.
    pub open spec fn view(&self) -> ActionView {
        match self {
            FieldAction::Drain => ActionView::Drain,
            FieldAction::CollectText { name } => ActionView::CollectText(name@),
            FieldAction::CheckFile { content_length, content_type, key } => ActionView::CheckFile(
                *content_length,
                content_type@,
                key@,
            ),
        }
    }
}

/// The state of an upload as values: the expected hash, the text fields
/// held, the outcome once known, and the size declared for the file field
/// being checked.
pub struct UploadView {
    pub expected_hash: Seq<char>,
    pub fields: Map<Seq<char>, Seq<char>>,
    pub outcome: Option<Result<Seq<char>, UploadError>>,
    pub declared_size: Option<u64>,
}

/// The upload state with another outcome.
pub open spec fn with_outcome(v: UploadView, fields: Map<Seq<char>, Seq<char>>, e: UploadError) -> UploadView {
    UploadView { expected_hash: v.expected_hash, fields, outcome: Some(Err(e)), declared_size: v.declared_size }
}

/// What a field head does to an upload: the next state and the caller's
/// action.
///
/// Once the outcome is known every field is drained. A field with a file
/// name and a content type is the file when it is named `file`: the `size`
/// field seen before it (which is removed) gives its length, which must be
/// a decimal `u64` other than 0. Other file fields are drained. A field
/// without both is a text field: collected when it has a name, drained
/// when it has none.
pub open spec fn spec_begin_field(v: UploadView, h: HeadView) -> (UploadView, ActionView) {
    if v.outcome is Some {
        (v, ActionView::Drain)
    } else if h.has_file_name && h.content_type is Some {
        if h.name == Some("file"@) {
            if v.fields.contains_key("size"@) {
                let rest = v.fields.remove("size"@);
                match spec_parse_u64(v.fields["size"@]) {
                    None => (with_outcome(v, rest, UploadError::InvalidSize), ActionView::Drain),
                    Some(n) => if n == 0 {
                        (with_outcome(v, rest, UploadError::EmptyFile), ActionView::Drain)
                    } else {
                        (
                            UploadView {
                                expected_hash: v.expected_hash,
                                fields: rest,
                                outcome: None,
                                declared_size: Some(n),
                            },
                            ActionView::CheckFile(n, h.content_type.unwrap(), v.expected_hash),
                        )
                    },
                }
            } else {
                (with_outcome(v, v.fields, UploadError::MissingSize), ActionView::Drain)
            }
        } else {
            (v, ActionView::Drain)
        }
    } else {
        match h.name {
            Some(n) => (v, ActionView::CollectText(n)),
            None => (v, ActionView::Drain),
        }
    }
}

/// A form part without a file name is a text field, whatever its content
/// type: while the outcome is open, a named one is collected under its
/// name and the upload's state is left as it was.
pub proof fn lemma_part_without_file_name_is_text(v: UploadView, h: HeadView)
    requires
        v.outcome is None,
        !h.has_file_name,
        h.name is Some,
    ensures
        spec_begin_field(v, h).0 == v,
        spec_begin_field(v, h).1 == ActionView::CollectText(h.name->0),
{
}

/// The state after a run of field heads (each handled by
/// `spec_begin_field`), and the actions asked for, in order.
pub open spec fn spec_run_fields(v: UploadView, heads: Seq<HeadView>) -> (UploadView, Seq<ActionView>)
    decreases heads.len(),
{
    if heads.len() == 0 {
        (v, Seq::empty())
    } else {
        let (next, action) = spec_begin_field(v, heads[0]);
        let (last, actions) = spec_run_fields(next, heads.drop_first());
        (last, seq![action] + actions)
    }
}

/// Once an upload's outcome is known, the fields that follow change
/// nothing: every one of them is drained and the state stays as it is.
pub proof fn lemma_decided_upload_ignores_later_fields(v: UploadView, heads: Seq<HeadView>)
    requires
        v.outcome is Some,
    ensures
        spec_run_fields(v, heads).0 == v,
        spec_run_fields(v, heads).1.len() == heads.len(),
        forall|i: int| 0 <= i < heads.len() ==> #[trigger] spec_run_fields(v, heads).1[i] is Drain,
    decreases heads.len(),
{
    if heads.len() > 0 {
        lemma_decided_upload_ignores_later_fields(v, heads.drop_first());
        let rest = spec_run_fields(v, heads.drop_first()).1;
        assert forall|i: int| 0 <= i < heads.len() implies #[trigger] spec_run_fields(v, heads).1[i] is Drain by {
            if i > 0 {
                assert(spec_run_fields(v, heads).1[i] == rest[i - 1]);
            }
        }
    }
}

/// What the caller does with the stored object after the file was checked.
#[derive(Debug)]
pub enum FinishAction {
    /// Nothing.
    Keep,
    /// The file was stored under `key` during this upload and failed the
    /// check: delete it.
    DeleteStored { key: String },
}

/// A text form field, by its name and value.
pub type FormField = (String, String);

/// The text fields of a form as a map from name to value (later values of
/// a name replace earlier ones).
pub open spec fn spec_field_map(fields: Seq<FormField>) -> Map<Seq<char>, Seq<char>> {
    Map::new(
        |k: Seq<char>| exists|i: int| 0 <= i < fields.len() && (#[trigger] fields[i]).0@ == k,
        |k: Seq<char>| fields[choose|i: int| 0 <= i < fields.len() && (#[trigger] fields[i]).0@ == k].1@,
    )
}

/// No two fields share a name.
pub open spec fn spec_names_unique(fields: Seq<FormField>) -> bool {
    forall|i: int, j: int|
        0 <= i < fields.len() && 0 <= j < fields.len() && i != j ==> (#[trigger] fields[i]).0@
            != (#[trigger] fields[j]).0@
}

/// The outcome of a check of an uploaded file: its declared length, its
/// received length and content, and the hash the form was sent with.
pub open spec fn spec_file_verdict(declared: u64, received: u64, content: Seq<u8>, expected_hash: Seq<char>) -> Result<Seq<char>, UploadError> {
    if received != declared {
        Err(UploadError::SizeMismatch)
    } else if base64_standard_encode(sha512_digest(content)) != expected_hash {
        Err(UploadError::HashMismatch)
    } else {
        Ok(expected_hash)
    }
}

/// The length and running SHA-512 of an uploaded file, fed chunk by chunk.
pub struct FileCheck {
    declared: u64,
    received: u64,
    hasher: crypto::sha2::Sha512,
}

impl FileCheck {
    /// The length that the form's `size` field declared.
    pub closed spec fn declared(&self) -> u64 {
        self.declared
    }

    /// The number of bytes fed so far.
    pub closed spec fn received(&self) -> u64 {
        self.received
    }

    /// The bytes fed so far.
    pub closed spec fn content(&self) -> Seq<u8> {
        sha512_absorbed(self.hasher)
    }

    /// The received count is the length of the content, the hasher still
    /// takes input, and the declared length is not 0.
    pub closed spec fn wf(&self) -> bool {
        &&& self.received as int == sha512_absorbed(self.hasher).len()
        &&& !sha512_finished(self.hasher)
        &&& self.declared > 0
    }

    /// Starts a check of a file declared to be `declared` bytes long.
    pub fn new(declared: u64) -> (r: FileCheck)
        requires
            declared > 0,
        ensures
            r.wf(),
            r.declared() == declared,
            r.received() == 0,
            r.content() == Seq::<u8>::empty(),
    {
        FileCheck { declared, received: 0, hasher: sha512_new() }
    }

    /// The number of bytes fed so far.
    pub fn received_len(&self) -> (r: u64)
        ensures
            r == self.received(),
    {
        self.received
    }

    /// Feeds the next chunk of the file. The count must stay within `u64`.
    pub fn absorb(&mut self, chunk: &[u8])
        requires
            old(self).wf(),
            old(self).received() + chunk@.len() <= u64::MAX,
        ensures
            final(self).wf(),
            final(self).declared() == old(self).declared(),
            final(self).content() == old(self).content() + chunk@,
            final(self).received() == old(self).received() + chunk@.len(),
    {
        let n = chunk.len() as u64;
        sha512_input(&mut self.hasher, chunk);
        self.received = self.received + n;
    }
}

/// The state of a multipart upload: the expected hash (from the request
/// header), the text fields seen so far, and the outcome once it is known.
pub struct UploadSession {
    expected_hash: String,
    fields: Vec<FormField>,
    outcome: Option<Result<String, UploadError>>,
    accepted: Ghost<Seq<u8>>,
    declared: Ghost<Option<u64>>,
}

impl UploadSession {
    /// The hash the uploaded file must have (SHA-512, base64).
    pub closed spec fn expected_hash(&self) -> Seq<char> {
        self.expected_hash@
    }

    /// The text fields seen and still held, by name.
    pub closed spec fn fields(&self) -> Map<Seq<char>, Seq<char>> {
        spec_field_map(self.fields@)
    }

    /// The outcome, once it is known.
    pub closed spec fn outcome(&self) -> Option<Result<Seq<char>, UploadError>> {
        match self.outcome {
            None => None,
            Some(Ok(k)) => Some(Ok(k@)),
            Some(Err(e)) => Some(Err(e)),
        }
    }

    /// The content of the file that was accepted, once one was.
    pub closed spec fn accepted_content(&self) -> Seq<u8> {
        self.accepted@
    }

    /// The size declared for the file field last handed out to be checked.
    pub closed spec fn declared_size(&self) -> Option<u64> {
        self.declared@
    }

    /// The state as values.
    pub open spec fn view(&self) -> UploadView {
        UploadView {
            expected_hash: self.expected_hash(),
            fields: self.fields(),
            outcome: self.outcome(),
            declared_size: self.declared_size(),
        }
    }

    /// Field names are unique, and an accepted outcome names the expected
    /// hash, which is the base64 SHA-512 of an accepted content whose length
    /// is the declared size, itself not 0.
    pub closed spec fn wf(&self) -> bool {
        &&& spec_names_unique(self.fields@)
        &&& (self.outcome matches Some(Ok(k)) ==> {
            &&& k@ == self.expected_hash@
            &&& base64_standard_encode(sha512_digest(self.accepted@)) == self.expected_hash@
            &&& self.declared@ matches Some(n) && self.accepted@.len() == n && n > 0
        })
    }

    /// The result of the upload as the form ends now: the outcome, or
    /// `NoFileField` if no file field was checked.
    pub open spec fn result(&self) -> Result<Seq<char>, UploadError> {
        match self.outcome() {
            Some(r) => r,
            None => Err(UploadError::NoFileField),
        }
    }

    /// Starts an upload whose file must hash to `expected_hash`.
    pub fn new(expected_hash: String) -> (r: UploadSession)
        ensures
            r.wf(),
            r.expected_hash() == expected_hash@,
            r.fields() == Map::<Seq<char>, Seq<char>>::empty(),
            r.outcome() is None,
            r.declared_size() is None,
    {
        let r = UploadSession {
            expected_hash,
            fields: Vec::new(),
            outcome: None,
            accepted: Ghost(Seq::empty()),
            declared: Ghost(None),
        };
        assert(r.fields() =~= Map::<Seq<char>, Seq<char>>::empty());
        r
    }

    /// The position of the field with this name, if there is one.
    fn find_field(&self, name: &str) -> (r: Option<usize>)
        requires
            spec_names_unique(self.fields@),
        ensures
            match r {
                Some(i) => i < self.fields@.len() && self.fields@[i as int].0@ == name@,
                None => !self.fields().contains_key(name@),
            },
    {
        let mut i: usize = 0;
        while i < self.fields.len()
            invariant
                i <= self.fields@.len(),
                forall|j: int| 0 <= j < i ==> (#[trigger] self.fields@[j]).0@ != name@,
            decreases self.fields@.len() - i,
        {
            if text_equal(self.fields[i].0.as_str(), name) {
                return Some(i);
            }
            i = i + 1;
        }
        None
    }

    /// Removes the field at position `i`.
    fn remove_field_at(&mut self, i: usize) -> (r: String)
        requires
            spec_names_unique(old(self).fields@),
            i < old(self).fields@.len(),
        ensures
            r@ == old(self).fields()[old(self).fields@[i as int].0@],
            old(self).fields().contains_key(old(self).fields@[i as int].0@),
            final(self).fields() == old(self).fields().remove(old(self).fields@[i as int].0@),
            spec_names_unique(final(self).fields@),
            final(self).expected_hash == old(self).expected_hash,
            final(self).outcome == old(self).outcome,
            final(self).accepted == old(self).accepted,
            final(self).declared == old(self).declared,
    {
        let ghost old_fields = self.fields@;
        let ghost key = old_fields[i as int].0@;
        let (_, value) = self.fields.remove(i);
        proof {
            let new_fields = self.fields@;
            assert(old_fields[i as int].0@ == key);
            assert(spec_field_map(old_fields).contains_key(key));
            let c = choose|j: int| 0 <= j < old_fields.len() && (#[trigger] old_fields[j]).0@ == key;
            assert(c == i as int);
            assert forall|j: int, l: int|
                0 <= j < new_fields.len() && 0 <= l < new_fields.len() && j != l implies (#[trigger] new_fields[j]).0@
                    != (#[trigger] new_fields[l]).0@ by {
                let oj = if j < i { j } else { j + 1 };
                let ol = if l < i { l } else { l + 1 };
                assert(new_fields[j] == old_fields[oj]);
                assert(new_fields[l] == old_fields[ol]);
            }
            assert forall|k: Seq<char>| #![auto]
                spec_field_map(new_fields).contains_key(k) <==> spec_field_map(old_fields).remove(key).contains_key(k) by {
                if spec_field_map(new_fields).contains_key(k) {
                    let j = choose|j: int| 0 <= j < new_fields.len() && (#[trigger] new_fields[j]).0@ == k;
                    let oj = if j < i { j } else { j + 1 };
                    assert(new_fields[j] == old_fields[oj]);
                    assert(oj != i);
                }
                if spec_field_map(old_fields).remove(key).contains_key(k) {
                    let oj = choose|j: int| 0 <= j < old_fields.len() && (#[trigger] old_fields[j]).0@ == k;
                    assert(oj != i);
                    let j = if oj < i { oj } else { oj - 1 };
                    assert(new_fields[j] == old_fields[oj]);
                }
            }
            assert forall|k: Seq<char>| #![auto]
                spec_field_map(new_fields).contains_key(k) implies spec_field_map(new_fields)[k] == spec_field_map(old_fields)[k] by {
                let j = choose|j: int| 0 <= j < new_fields.len() && (#[trigger] new_fields[j]).0@ == k;
                let oj = if j < i { j } else { j + 1 };
                assert(new_fields[j] == old_fields[oj]);
                let oc = choose|m: int| 0 <= m < old_fields.len() && (#[trigger] old_fields[m]).0@ == k;
                assert(oc == oj);
            }
            assert(spec_field_map(new_fields) =~= spec_field_map(old_fields).remove(key));
        }
        value
    }

    /// Sets the value of the field `name`, replacing any earlier value.
    fn insert_field(&mut self, name: String, value: String)
        requires
            spec_names_unique(old(self).fields@),
        ensures
            final(self).fields() == old(self).fields().insert(name@, value@),
            spec_names_unique(final(self).fields@),
            final(self).expected_hash == old(self).expected_hash,
            final(self).outcome == old(self).outcome,
            final(self).accepted == old(self).accepted,
            final(self).declared == old(self).declared,
    {
        let ghost before = self.fields();
        match self.find_field(name.as_str()) {
            Some(i) => {
                self.remove_field_at(i);
            },
            None => {},
        }
        let ghost mid = self.fields@;
        assert(!spec_field_map(mid).contains_key(name@));
        assert(spec_field_map(mid) == before.remove(name@));
        self.fields.push((name, value));
        proof {
            let new_fields = self.fields@;
            let n = mid.len() as int;
            assert(new_fields[n].0@ == name@);
            assert forall|j: int, l: int|
                0 <= j < new_fields.len() && 0 <= l < new_fields.len() && j != l implies (#[trigger] new_fields[j]).0@
                    != (#[trigger] new_fields[l]).0@ by {
                if j < n && l < n {
                    assert(new_fields[j] == mid[j]);
                    assert(new_fields[l] == mid[l]);
                } else if j < n {
                    assert(new_fields[j] == mid[j]);
                    assert(spec_field_map(mid).contains_key(mid[j].0@));
                } else {
                    assert(new_fields[l] == mid[l]);
                    assert(spec_field_map(mid).contains_key(mid[l].0@));
                }
            }
            let target = before.insert(name@, value@);
            assert forall|k: Seq<char>| #![auto]
                spec_field_map(new_fields).contains_key(k) <==> target.contains_key(k) by {
                if spec_field_map(new_fields).contains_key(k) {
                    let j = choose|j: int| 0 <= j < new_fields.len() && (#[trigger] new_fields[j]).0@ == k;
                    if j < n {
                        assert(new_fields[j] == mid[j]);
                        assert(spec_field_map(mid).contains_key(k));
                    }
                }
                if target.contains_key(k) {
                    if k == name@ {
                        assert(new_fields[n].0@ == k);
                    } else {
                        assert(spec_field_map(mid).contains_key(k));
                        let j = choose|j: int| 0 <= j < mid.len() && (#[trigger] mid[j]).0@ == k;
                        assert(new_fields[j] == mid[j]);
                    }
                }
            }
            assert forall|k: Seq<char>| #![auto]
                spec_field_map(new_fields).contains_key(k) implies spec_field_map(new_fields)[k] == target[k] by {
                let j = choose|j: int| 0 <= j < new_fields.len() && (#[trigger] new_fields[j]).0@ == k;
                if k == name@ {
                    assert(new_fields[n].0@ == k);
                    assert(j == n);
                    assert(new_fields[n].1@ == value@);
                    assert(spec_field_map(new_fields)[k] == new_fields[j].1@);
                } else {
                    assert(j != n);
                    assert(new_fields[j] == mid[j]);
                    assert(spec_field_map(mid).contains_key(k));
                    let mj = choose|m: int| 0 <= m < mid.len() && (#[trigger] mid[m]).0@ == k;
                    assert(mj == j);
                    assert(spec_field_map(mid)[k] == mid[mj].1@);
                    assert(spec_field_map(new_fields)[k] == new_fields[j].1@);
                    assert(before.remove(name@)[k] == before[k]);
                }
            }
            assert(spec_field_map(new_fields) =~= target);
        }
    }

    /// Decides what to do with the next field of the form, from its head,
    /// as `spec_begin_field` says.
    pub fn begin_field(&mut self, head: FieldHead) -> (action: FieldAction)
        requires
            old(self).wf(),
        ensures
            final(self).wf(),
            final(self).accepted_content() == old(self).accepted_content(),
            (final(self).view(), action.view()) == spec_begin_field(old(self).view(), head.view()),
    {
        if self.outcome.is_some() {
            return FieldAction::Drain;
        }
        let FieldHead { has_file_name, content_type, name } = head;
        if has_file_name && content_type.is_some() {
            let content_type = match content_type {
                Some(ct) => ct,
                None => {
                    return FieldAction::Drain;
                },
            };
            let is_file = match &name {
                Some(n) => text_equal(n.as_str(), "file"),
                None => false,
            };
            if !is_file {
                return FieldAction::Drain;
            }
            match self.find_field("size") {
                None => {
                    self.outcome = Some(Err(UploadError::MissingSize));
                    FieldAction::Drain
                },
                Some(i) => {
                    let size_text = self.remove_field_at(i);
                    match parse_u64_decimal(size_text.as_str()) {
                        None => {
                            self.outcome = Some(Err(UploadError::InvalidSize));
                            FieldAction::Drain
                        },
                        Some(n) => {
                            if n == 0 {
                                self.outcome = Some(Err(UploadError::EmptyFile));
                                FieldAction::Drain
                            } else {
                                proof {
                                    self.declared@ = Some(n);
                                }
                                FieldAction::CheckFile {
                                    content_length: n,
                                    content_type,
                                    key: self.expected_hash.clone(),
                                }
                            }
                        },
                    }
                },
            }
        } else {
            match name {
                Some(n) => FieldAction::CollectText { name: n },
                None => FieldAction::Drain,
            }
        }
    }

    /// Takes the data of a named text field. Data that is not UTF-8 refuses
    /// the whole form (`InvalidText`); otherwise the field's value is set.
    pub fn text_field(&mut self, name: String, data: Vec<u8>) -> (r: Result<(), UploadError>)
        requires
            old(self).wf(),
        ensures
            final(self).wf(),
            final(self).expected_hash() == old(self).expected_hash(),
            final(self).outcome() == old(self).outcome(),
            final(self).declared_size() == old(self).declared_size(),
            final(self).accepted_content() == old(self).accepted_content(),
            valid_utf8(data@) ==> r is Ok && final(self).fields() == old(self).fields().insert(
                name@,
                decode_utf8(data@),
            ),
            !valid_utf8(data@) ==> r == Err::<(), UploadError>(UploadError::InvalidText)
                && final(self).fields() == old(self).fields(),
    {
        match utf8_string(data) {
            None => Err(UploadError::InvalidText),
            Some(value) => {
                self.insert_field(name, value);
                Ok(())
            },
        }
    }

    /// Takes the check of the file field last handed out (its `FileCheck`
    /// was made for the declared size): the file is accepted when its
    /// length is the declared one and its SHA-512, in base64, is the
    /// expected hash. A file that was stored during this upload
    /// (`existed` false) and is refused is to be deleted.
    pub fn finish_file(&mut self, check: FileCheck, existed: bool) -> (action: FinishAction)
        requires
            old(self).wf(),
            old(self).outcome() is None,
            old(self).declared_size() == Some(check.declared()),
            check.wf(),
        ensures
            final(self).wf(),
            final(self).expected_hash() == old(self).expected_hash(),
            final(self).fields() == old(self).fields(),
            final(self).declared_size() == old(self).declared_size(),
            final(self).outcome() == Some(
                spec_file_verdict(check.declared(), check.received(), check.content(), old(self).expected_hash()),
            ),
            final(self).outcome() matches Some(Ok(_)) ==> final(self).accepted_content() == check.content(),
            if !existed && final(self).outcome() matches Some(Err(_)) {
                action matches FinishAction::DeleteStored { key } && key@ == old(self).expected_hash()
            } else {
                action is Keep
            },
    {
        let mut check = check;
        let declared = check.declared;
        let received = check.received;
        let ghost content = sha512_absorbed(check.hasher);
        let digest = sha512_result(&mut check.hasher);
        let verdict = if received != declared {
            Err(UploadError::SizeMismatch)
        } else {
            let actual_hash = base64_encode(digest.as_slice());
            if actual_hash != self.expected_hash {
                Err(UploadError::HashMismatch)
            } else {
                proof {
                    self.accepted@ = content;
                }
                Ok(actual_hash)
            }
        };
        let refused = verdict.is_err();
        self.outcome = Some(verdict);
        if !existed && refused {
            FinishAction::DeleteStored { key: self.expected_hash.clone() }
        } else {
            FinishAction::Keep
        }
    }

    /// The result of the upload once the form has ended.
    pub fn finish(self) -> (r: Result<String, UploadError>)
        requires
            self.wf(),
        ensures
            match r {
                Ok(k) => self.result() == Ok::<Seq<char>, UploadError>(k@),
                Err(e) => self.result() == Err::<Seq<char>, UploadError>(e),
            },
    {
        match self.outcome {
            Some(r) => r,
            None => Err(UploadError::NoFileField),
        }
    }
}

/// An upload is accepted only with the hash it was sent with, and only when
/// that hash is the base64 SHA-512 of a file content whose length is the
/// size the form declared, which is not 0.
pub proof fn lemma_accepted_upload_matches_digest(s: UploadSession)
    requires
        s.wf(),
    ensures
        s.result() matches Ok(k) ==> {
            &&& k == s.expected_hash()
            &&& base64_standard_encode(sha512_digest(s.accepted_content())) == k
            &&& s.declared_size() matches Some(n) && s.accepted_content().len() == n && n > 0
        },
{
}

// ---------------------------------------------------------------------------
// Answers of the fetch, upload and delete actions
// ---------------------------------------------------------------------------

/// The text answered with status 404 when there is no such object.
pub const NOT_FOUND_TEXT: &'static str = "file not found!";

/// The text answered with status 500 when fetching an object failed.
pub const FETCH_FAILED_TEXT: &'static str = "Fetch file failed!";

/// The text answered with status 400 to a malformed request.
pub const BAD_REQUEST_TEXT: &'static str = "BAD REQUEST";

/// The answer data of a successful upload: the object key.
#[derive(Debug)]
pub struct PutResp {
    pub key: String,
}

/// What the object store told about an object that was found.
pub struct ObjectMeta {
    /// The object's content type.
    pub content_type: Option<String>,
    /// The object's length as the store gives it.
    pub content_length: Option<i64>,
    /// The object's last modification time, as whole seconds since the
    /// epoch and nanoseconds within the second.
    pub last_modified: Option<(i64, u32)>,
    /// The object's entity tag.
    pub e_tag: Option<String>,
}

/// What the object store answered to a fetch.
pub enum GetOutcome {
    Found(ObjectMeta),
    NoSuchKey,
    Failed,
}

/// The answer to a fetch.
#[derive(Debug)]
pub enum GetPlan {
    /// Status 200, the object's data as body, with these headers.
    Object {
        content_type: Option<String>,
        content_length: Option<u64>,
        last_modified: Option<String>,
        e_tag: Option<String>,
    },
    /// Status 404 with `NOT_FOUND_TEXT`.
    NotFound,
    /// Status 500 with `FETCH_FAILED_TEXT`.
    Failed,
}

/// Whether an optional header text is absent or can stand as a value.
pub open spec fn spec_optional_header_ok(text: Option<String>) -> bool {
    match text {
        Some(t) => spec_header_value_ok(t@),
        None => true,
    }
}

/// The answer to a fetch, from the store's answer: the object with its
/// headers, where every header value can be written (else status 500);
/// a length below 0 is left out.
pub open spec fn spec_get_plan_ok(meta: ObjectMeta, plan: GetPlan) -> bool {
    let writable = spec_optional_header_ok(meta.content_type) && spec_optional_header_ok(meta.e_tag)
        && match meta.last_modified {
        None => true,
        Some((secs, nanos)) => nanos < 1_000_000_000 && http_date_representable(secs) && spec_header_value_ok(
            smithy_http_date(secs, nanos),
        ),
    };
    if writable {
        plan matches GetPlan::Object { content_type, content_length, last_modified, e_tag }
            && content_type == meta.content_type && e_tag == meta.e_tag
            && content_length == (match meta.content_length {
            Some(l) => if l >= 0 { Some(l as u64) } else { None },
            None => None,
        }) && match meta.last_modified {
            Some((secs, nanos)) => last_modified matches Some(t) && t@ == smithy_http_date(secs, nanos),
            None => last_modified is None,
        }
    } else {
        plan is Failed
    }
}

fn optional_header_ok(text: &Option<String>) -> (r: bool)
    ensures
        r == spec_optional_header_ok(*text),
{
    match text {
        Some(t) => header_value_accepts(t.as_str()),
        None => true,
    }
}

/// Decides the answer to a fetch from what the object store answered.
pub fn plan_get_response(outcome: GetOutcome) -> (r: GetPlan)
    ensures
        match outcome {
            GetOutcome::Found(meta) => spec_get_plan_ok(meta, r),
            GetOutcome::NoSuchKey => r is NotFound,
            GetOutcome::Failed => r is Failed,
        },
{
    match outcome {
        GetOutcome::NoSuchKey => GetPlan::NotFound,
        GetOutcome::Failed => GetPlan::Failed,
        GetOutcome::Found(meta) => {
            let ObjectMeta { content_type, content_length, last_modified, e_tag } = meta;
            if !optional_header_ok(&content_type) {
                return GetPlan::Failed;
            }
            let last_modified = match last_modified {
                None => None,
                Some((secs, nanos)) => {
                    if nanos >= 1_000_000_000 {
                        return GetPlan::Failed;
                    }
                    let t = match http_date(secs, nanos) {
                        None => {
                            return GetPlan::Failed;
                        },
                        Some(t) => t,
                    };
                    if !header_value_accepts(t.as_str()) {
                        return GetPlan::Failed;
                    }
                    Some(t)
                },
            };
            if !optional_header_ok(&e_tag) {
                return GetPlan::Failed;
            }
            let content_length = match content_length {
                Some(l) => if l >= 0 { Some(l as u64) } else { None },
                None => None,
            };
            GetPlan::Object { content_type, content_length, last_modified, e_tag }
        },
    }
}

/// The bytes of an optional header.
pub open spec fn optional_bytes(value: Option<&[u8]>) -> Option<Seq<u8>> {
    match value {
        Some(v) => Some(v@),
        None => None,
    }
}

/// The text of an optional header, as `HeaderValue::to_str` gives it.
pub open spec fn spec_optional_header_text(value: Option<Seq<u8>>) -> Option<Seq<char>> {
    match value {
        Some(b) => spec_header_text(b),
        None => None,
    }
}

/// What an upload needs from its headers: the multipart boundary of the
/// content type and the expected hash.
pub open spec fn spec_put_plan(content_type: Option<Seq<u8>>, sha512: Option<Seq<u8>>) -> Option<(Seq<char>, Seq<char>)> {
    match (spec_optional_header_text(content_type), spec_optional_header_text(sha512)) {
        (Some(ct), Some(hash)) => match multipart_boundary(ct) {
            Some(b) => Some((b, hash)),
            None => None,
        },
        _ => None,
    }
}

fn optional_header_text(value: Option<&[u8]>) -> (r: Option<String>)
    ensures
        match r {
            Some(t) => spec_optional_header_text(optional_bytes(value)) == Some(t@),
            None => spec_optional_header_text(optional_bytes(value)) is None,
        },
{
    match value {
        Some(v) => header_text(v),
        None => None,
    }
}

/// Reads an upload's headers (the bytes of `Content-Type` and of
/// `X-sha512`): the multipart boundary and the expected hash, or `None`
/// when either is missing or malformed (answered with status 400).
pub fn plan_put(content_type: Option<&[u8]>, sha512: Option<&[u8]>) -> (r: Option<(String, String)>)
    ensures
        match r {
            Some((b, h)) => spec_put_plan(optional_bytes(content_type), optional_bytes(sha512))
                == Some((b@, h@)),
            None => spec_put_plan(optional_bytes(content_type), optional_bytes(sha512)) is None,
        },
{
    let boundary = match optional_header_text(content_type) {
        Some(ct) => parse_boundary(ct.as_str()),
        None => None,
    };
    let hash = optional_header_text(sha512);
    match (boundary, hash) {
        (Some(b), Some(h)) => Some((b, h)),
        _ => None,
    }
}

/// The hash an upload is checked against is the `X-sha512` header exactly
/// as it was sent: when the headers are accepted, the hash has one
/// character for each byte of the header, that byte read as a character.
pub proof fn lemma_put_hash_is_header_as_sent(content_type: Option<Seq<u8>>, sha512: Option<Seq<u8>>)
    ensures
        spec_put_plan(content_type, sha512) matches Some((b, h)) ==> sha512 matches Some(s) && h.len() == s.len()
            && forall|i: int| 0 <= i < s.len() ==> #[trigger] h[i] == s[i] as char,
{
}

/// The message of a refused upload.
pub open spec fn upload_refused_message() -> Seq<char> {
    "请求格式不正确"@
}

/// The answer data of an upload: the key of the accepted file, or a common
/// error (whatever the reason, which is only logged; `E` is any error the
/// upload ended with, a refusal of the form or an I/O failure).
pub fn put_result<E>(result: Result<String, E>) -> (r: Result<PutResp, ApiError>)
    ensures
        match result {
            Ok(k) => r matches Ok(p) && p.key == k,
            Err(_) => r matches Err(e) && e.code == COMMON_ERROR_CODE && e.message@ == upload_refused_message(),
        },
{
    match result {
        Ok(key) => Ok(PutResp { key }),
        Err(_) => Err(common_error("请求格式不正确")),
    }
}

/// How a delete request went.
pub enum DeleteOutcome {
    /// The object was deleted.
    Deleted,
    /// The object store refused or failed.
    StoreFailed,
    /// The body was not a JSON `DeleteReq`.
    InvalidBody,
}

/// The message of a failed delete.
pub open spec fn delete_failed_message() -> Seq<char> {
    "删除文件失败"@
}

/// The answer data of a delete.
pub fn delete_result(outcome: DeleteOutcome) -> (r: Result<(), ApiError>)
    ensures
        match outcome {
            DeleteOutcome::Deleted => r is Ok,
            DeleteOutcome::StoreFailed => r matches Err(e) && e.code == COMMON_ERROR_CODE
                && e.message@ == delete_failed_message(),
            DeleteOutcome::InvalidBody => r matches Err(e) && e.code == crate::context::PARAM_FORMAT_ERROR_CODE
                && e.message@ == crate::context::param_format_message(),
        },
{
    match outcome {
        DeleteOutcome::Deleted => Ok(()),
        DeleteOutcome::StoreFailed => Err(common_error("删除文件失败")),
        DeleteOutcome::InvalidBody => Err(param_format_error()),
    }
}

} // verus!
