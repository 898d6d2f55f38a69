//! The Google Drive requests of the uploader and the decisions taken on the
//! answers. Every request is a plain value (`HttpRequest`) that the caller
//! sends; the answers come back as `CreateResponse` and `ListResponse`.

use vstd::prelude::*;
use crate::json::{
    array_text, json_array, json_escaped, json_object, json_quoted, json_unescaped, keys_sorted,
    json_string_value, lemma_json_escape_roundtrip, lemma_json_quoted_value, object_text,
    pair_views, quote, seq_less,
};
use crate::text::string_views;

verus! {

/// Endpoint that creates files and folders and lists them.
pub const FILES_ENDPOINT: &'static str = "https://content.googleapis.com/drive/v3/files";

/// Endpoint for multipart uploads.
pub const UPLOAD_ENDPOINT: &'static str = "https://www.googleapis.com/upload/drive/v3/files";

/// MIME type of a Drive folder.
pub const FOLDER_MIME_TYPE: &'static str = "application/vnd.google-apps.folder";

/// MIME type of a Google Docs document.
pub const DOCUMENT_MIME_TYPE: &'static str = "application/vnd.google-apps.document";

/// Name of the folder that holds every uploaded file.
pub const ROOT_FOLDER_NAME: &'static str = "UDS root";

/// MIME type of the metadata part of a document upload.
pub const METADATA_PART_MIME: &'static str = "application/json; charset=UTF-8";

/// MIME type of the content part of a document upload.
pub const CONTENT_PART_MIME: &'static str = "text/plain";

/// Answer to a creation request.
#[derive(Debug)]
pub struct CreateResponse {
    pub id: String,
}

/// Properties recorded on the folder of an uploaded file.
#[derive(Debug)]
pub struct Properties {
    pub size: String,
    pub encoded_size: String,
    pub md5: String,
}

/// One file of a listing.
#[derive(Debug)]
pub struct File {
    pub id: String,
    pub mime_type: Option<String>,
    pub name: Option<String>,
    pub properties: Option<Properties>,
}

/// Answer to a listing request.
#[derive(Debug)]
pub struct ListResponse {
    pub files: Vec<File>,
}

/// HTTP method of a request.
#[derive(Debug, Clone, Copy, PartialEq, Eq, Structural)]
pub enum HttpMethod {
    Get,
    Post,
}

/// One part of a `multipart/form-data` body; every part is sent under the
/// empty field name.
#[derive(Debug)]
pub struct FormPart {
    pub mime: String,
    pub content: String,
}

/// Body of a request.
#[derive(Debug)]
pub enum RequestBody {
    Empty,
    Json(String),
    Multipart(Vec<FormPart>),
}

/// A request to the Drive API.
#[derive(Debug)]
pub struct HttpRequest {
    pub method: HttpMethod,
    pub url: String,
    pub body: RequestBody,
}

/// What to do to get the root folder: use the one found, or send the request
/// that creates it and use the id of its answer.
#[derive(Debug)]
pub enum RootFolder {
    Found(String),
    Create(HttpRequest),
}

/// Access to the Drive API with one access token, below one root folder.
pub struct DriveApi {
    token: String,
    root_folder_id: String,
}

/// Properties of the root folder.
pub open spec fn root_folder_properties() -> Seq<(Seq<char>, Seq<char>)> {
    seq![("udsRoot"@, "true"@)]
}

/// Members of the JSON body that creates the root folder.
pub open spec fn root_folder_members() -> Seq<(Seq<char>, Seq<char>)> {
    seq![
        ("mimeType"@, json_quoted(FOLDER_MIME_TYPE@)),
        ("name"@, json_quoted(ROOT_FOLDER_NAME@)),
        ("properties"@, json_object(root_folder_properties())),
    ]
}

/// JSON body that creates the root folder.
pub open spec fn root_folder_body() -> Seq<char> {
    json_object(root_folder_members())
}

/// Properties recorded on the folder of an uploaded file.
pub open spec fn media_folder_properties(
    size: Seq<char>,
    encoded_size: Seq<char>,
    md5: Seq<char>,
) -> Seq<(Seq<char>, Seq<char>)> {
    seq![
        ("encoded_size"@, json_quoted(encoded_size)),
        ("md5"@, json_quoted(md5)),
        ("size"@, json_quoted(size)),
        ("uds"@, "true"@),
    ]
}

/// Members of the JSON body that creates the folder of an uploaded file.
pub open spec fn media_folder_members(
    name: Seq<char>,
    root_folder_id: Seq<char>,
    size: Seq<char>,
    encoded_size: Seq<char>,
    md5: Seq<char>,
) -> Seq<(Seq<char>, Seq<char>)> {
    seq![
        ("mimeType"@, json_quoted(FOLDER_MIME_TYPE@)),
        ("name"@, json_quoted(name)),
        ("parents"@, json_array(seq![json_quoted(root_folder_id)])),
        ("properties"@, json_object(media_folder_properties(size, encoded_size, md5))),
    ]
}

/// JSON body that creates the folder of an uploaded file.
pub open spec fn media_folder_body(
    name: Seq<char>,
    root_folder_id: Seq<char>,
    size: Seq<char>,
    encoded_size: Seq<char>,
    md5: Seq<char>,
) -> Seq<char> {
    json_object(media_folder_members(name, root_folder_id, size, encoded_size, md5))
}

/// Properties of a document that holds one part of an upload.
pub open spec fn document_properties() -> Seq<(Seq<char>, Seq<char>)> {
    seq![("part"@, json_quoted("content"@))]
}

/// Members of the JSON metadata of a document that holds one part of an upload.
pub open spec fn document_members(parent_id: Seq<char>, order: Seq<char>) -> Seq<
    (Seq<char>, Seq<char>),
> {
    seq![
        ("mimeType"@, json_quoted(DOCUMENT_MIME_TYPE@)),
        ("name"@, json_quoted(order)),
        ("parents"@, json_array(seq![json_quoted(parent_id)])),
        ("properties"@, json_object(document_properties())),
    ]
}

/// JSON metadata of a document that holds one part of an upload.
pub open spec fn document_metadata(parent_id: Seq<char>, order: Seq<char>) -> Seq<char> {
    json_object(document_members(parent_id, order))
}

/// A pair of strings.
fn pair(key: &str, value: String) -> (r: (String, String))
    ensures
        r.0@ == key@,
        r.1@ == value@,
{
    (String::from_str(key), value)
}

/// The JSON array holding the string `s`.
fn single_string_array(s: &str) -> (r: String)
    ensures
        r@ == json_array(seq![json_quoted(s@)]),
{
    let mut items: Vec<String> = Vec::new();
    items.push(quote(s));
    assert(string_views(items@) =~= seq![json_quoted(s@)]);
    array_text(&items)
}

/// URL that creates a file or folder.
pub open spec fn create_url(token: Seq<char>) -> Seq<char> {
    FILES_ENDPOINT@ + "?access_token="@ + token
}

/// URL of a multipart upload.
pub open spec fn upload_url(token: Seq<char>) -> Seq<char> {
    UPLOAD_ENDPOINT@ + "?uploadType=multipart&access_token="@ + token
}

/// URL of a listing with a search query and a field selection.
pub open spec fn list_url(token: Seq<char>, query: Seq<char>, fields: Seq<char>) -> Seq<char> {
    FILES_ENDPOINT@ + "?access_token="@ + token + "&q="@ + query + "&fields="@ + fields
        + "&pageSize=1000"@
}

/// Search query for the files that carry the property `key` with value
/// `value`, not in the trash.
pub open spec fn property_query(key: Seq<char>, value: Seq<char>) -> Seq<char> {
    "properties has {key='"@ + key + "' and value='"@ + value + "'} and trashed=false"@
}

/// Search query for the parts of an upload.
pub open spec fn chunk_query(parent_id: Seq<char>) -> Seq<char> {
    "'"@ + parent_id + "' in parents and trashed=false"@
}

/// Whether `r` is the listing request for `query` and `fields`.
pub open spec fn is_list_request(
    r: HttpRequest,
    token: Seq<char>,
    query: Seq<char>,
    fields: Seq<char>,
) -> bool {
    &&& r.method == HttpMethod::Get
    &&& r.url@ == list_url(token, query, fields)
    &&& r.body is Empty
}

/// Whether `r` is the request that creates a folder from the JSON `body`.
pub open spec fn is_create_request(r: HttpRequest, token: Seq<char>, body: Seq<char>) -> bool {
    &&& r.method == HttpMethod::Post
    &&& r.url@ == create_url(token)
    &&& r.body matches RequestBody::Json(b) && b@ == body
}

impl DriveApi {
    /// The access token.
    pub closed spec fn token_view(&self) -> Seq<char> {
        self.token@
    }

    /// The id of the root folder (empty until it is set).
    pub closed spec fn root_folder_view(&self) -> Seq<char> {
        self.root_folder_id@
    }

    /// Access with `token`; the root folder is not known yet.
    pub fn new(token: String) -> (api: DriveApi)
        ensures
            api.token_view() == token@,
            api.root_folder_view() == Seq::<char>::empty(),
    {
        DriveApi { token, root_folder_id: String::new() }
    }

    /// Records the id of the root folder.
    pub fn set_root_folder_id(&mut self, id: String)
        ensures
            final(self).token_view() == old(self).token_view(),
            final(self).root_folder_view() == id@,
    {
        self.root_folder_id = id;
    }

    /// The id of the root folder.
    pub fn root_folder_id(&self) -> (r: &str)
        ensures
            r@ == self.root_folder_view(),
    {
        self.root_folder_id.as_str()
    }

    /// Decides on the answer to `find_root_folder`: the first folder found is
    /// the root folder; when none is found, it has to be created.
    pub fn create_or_find_root_folder(&self, found: &ListResponse) -> (r: RootFolder)
        ensures
            found.files@.len() == 0 ==> (r matches RootFolder::Create(req) && is_create_request(
                req,
                self.token_view(),
                root_folder_body(),
            )),
            found.files@.len() > 0 ==> (r matches RootFolder::Found(id) && id@
                == found.files@[0].id@),
    {
        if found.files.len() == 0 {
            RootFolder::Create(self.create_root_folder())
        } else {
            RootFolder::Found(found.files[0].id.clone())
        }
    }

    /// Request that creates the root folder.
    pub fn create_root_folder(&self) -> (r: HttpRequest)
        ensures
            is_create_request(r, self.token_view(), root_folder_body()),
    {
        let mut props: Vec<(String, String)> = Vec::new();
        props.push(pair("udsRoot", String::from_str("true")));
        assert(pair_views(props@) =~= root_folder_properties());
        let mut members: Vec<(String, String)> = Vec::new();
        members.push(pair("mimeType", quote(FOLDER_MIME_TYPE)));
        members.push(pair("name", quote(ROOT_FOLDER_NAME)));
        members.push(pair("properties", object_text(&props)));
        assert(pair_views(members@) =~= root_folder_members());
        let body = object_text(&members);
        self.create_folder(body)
    }

    /// Request that creates a folder from a JSON body.
    pub fn create_folder(&self, body: String) -> (r: HttpRequest)
        ensures
            is_create_request(r, self.token_view(), body@),
    {
        let mut url = String::new();
        url.append(FILES_ENDPOINT);
        url.append("?access_token=");
        url.append(self.token.as_str());
        assert(url@ =~= create_url(self.token_view()));
        HttpRequest { method: HttpMethod::Post, url, body: RequestBody::Json(body) }
    }

    /// Request that creates, in the root folder, the folder of an uploaded
    /// file named `name` with its properties.
    pub fn create_media_folder(&self, name: &str, properties: &Properties) -> (r: HttpRequest)
        ensures
            is_create_request(
                r,
                self.token_view(),
                media_folder_body(
                    name@,
                    self.root_folder_view(),
                    properties.size@,
                    properties.encoded_size@,
                    properties.md5@,
                ),
            ),
    {
        let mut props: Vec<(String, String)> = Vec::new();
        props.push(pair("encoded_size", quote(properties.encoded_size.as_str())));
        props.push(pair("md5", quote(properties.md5.as_str())));
        props.push(pair("size", quote(properties.size.as_str())));
        props.push(pair("uds", String::from_str("true")));
        assert(pair_views(props@) =~= media_folder_properties(
            properties.size@,
            properties.encoded_size@,
            properties.md5@,
        ));
        let mut members: Vec<(String, String)> = Vec::new();
        members.push(pair("mimeType", quote(FOLDER_MIME_TYPE)));
        members.push(pair("name", quote(name)));
        members.push(pair("parents", single_string_array(self.root_folder_id.as_str())));
        members.push(pair("properties", object_text(&props)));
        assert(pair_views(members@) =~= media_folder_members(
            name@,
            self.root_folder_view(),
            properties.size@,
            properties.encoded_size@,
            properties.md5@,
        ));
        let body = object_text(&members);
        self.create_folder(body)
    }

    /// Request that uploads `content` as a document named `order` in the
    /// folder `parent_id`: a multipart body of the JSON metadata and the text.
    pub fn create_document(&self, parent_id: &str, order: String, content: String) -> (r:
        HttpRequest)
        ensures
            r.method == HttpMethod::Post,
            r.url@ == upload_url(self.token_view()),
            r.body matches RequestBody::Multipart(parts) && parts@.len() == 2
                && parts@[0].mime@ == METADATA_PART_MIME@ && parts@[0].content@
                == document_metadata(parent_id@, order@) && parts@[1].mime@ == CONTENT_PART_MIME@
                && parts@[1].content@ == content@,
    {
        let mut url = String::new();
        url.append(UPLOAD_ENDPOINT);
        url.append("?uploadType=multipart&access_token=");
        url.append(self.token.as_str());
        assert(url@ =~= upload_url(self.token_view()));
        let mut props: Vec<(String, String)> = Vec::new();
        props.push(pair("part", quote("content")));
        assert(pair_views(props@) =~= document_properties());
        let mut members: Vec<(String, String)> = Vec::new();
        members.push(pair("mimeType", quote(DOCUMENT_MIME_TYPE)));
        members.push(pair("name", quote(order.as_str())));
        members.push(pair("parents", single_string_array(parent_id)));
        members.push(pair("properties", object_text(&props)));
        assert(pair_views(members@) =~= document_members(parent_id@, order@));
        let meta = object_text(&members);
        let mut parts: Vec<FormPart> = Vec::new();
        parts.push(FormPart { mime: String::from_str(METADATA_PART_MIME), content: meta });
        parts.push(FormPart { mime: String::from_str(CONTENT_PART_MIME), content });
        HttpRequest { method: HttpMethod::Post, url, body: RequestBody::Multipart(parts) }
    }

    /// Request that lists the files matching a search query, with the given
    /// field selection, up to a thousand of them.
    pub fn list_files(&self, query: &str, fields: &str) -> (r: HttpRequest)
        ensures
            is_list_request(r, self.token_view(), query@, fields@),
    {
        let mut url = String::new();
        url.append(FILES_ENDPOINT);
        url.append("?access_token=");
        url.append(self.token.as_str());
        url.append("&q=");
        url.append(query);
        url.append("&fields=");
        url.append(fields);
        url.append("&pageSize=1000");
        assert(url@ =~= list_url(self.token_view(), query@, fields@));
        HttpRequest { method: HttpMethod::Get, url, body: RequestBody::Empty }
    }

    /// Request that lists the parts (documents) of the upload in folder
    /// `parent_id`.
    pub fn find_file_chunk(&self, parent_id: &str) -> (r: HttpRequest)
        ensures
            is_list_request(r, self.token_view(), chunk_query(parent_id@), "files(id, name)"@),
    {
        let mut query = String::new();
        query.append("'");
        query.append(parent_id);
        query.append("' in parents and trashed=false");
        assert(query@ =~= chunk_query(parent_id@));
        self.list_files(query.as_str(), "files(id, name)")
    }

    /// Search query for the files with property `key` set to `value`.
    fn property_query_text(key: &str, value: &str) -> (r: String)
        ensures
            r@ == property_query(key@, value@),
    {
        let mut query = String::from_str("properties has {key='");
        query.append(key);
        query.append("' and value='");
        query.append(value);
        query.append("'} and trashed=false");
        assert(query@ =~= property_query(key@, value@));
        query
    }

    /// Request that lists the folders of uploaded files.
    pub fn find_uploaded_files(&self) -> (r: HttpRequest)
        ensures
            is_list_request(
                r,
                self.token_view(),
                property_query("uds"@, "true"@),
                "files(id, name, properties, mimeType)"@,
            ),
    {
        let query = Self::property_query_text("uds", "true");
        self.list_files(query.as_str(), "files(id, name, properties, mimeType)")
    }

    /// Request that looks for the root folder.
    pub fn find_root_folder(&self) -> (r: HttpRequest)
        ensures
            is_list_request(
                r,
                self.token_view(),
                property_query("udsRoot"@, "true"@),
                "files(id)"@,
            ),
    {
        let query = Self::property_query_text("udsRoot", "true");
        self.list_files(query.as_str(), "files(id)")
    }

    /// Deleting files is not offered: this does nothing.
    pub fn delete_file() {
    }
}

/// The keys of the three JSON bodies strictly increase, as in the objects
/// that `serde_json` prints: every key occurs once.
pub proof fn lemma_bodies_keys_sorted(
    name: Seq<char>,
    root_folder_id: Seq<char>,
    size: Seq<char>,
    encoded_size: Seq<char>,
    md5: Seq<char>,
    parent_id: Seq<char>,
    order: Seq<char>,
)
    ensures
        keys_sorted(root_folder_members()),
        keys_sorted(root_folder_properties()),
        keys_sorted(media_folder_members(name, root_folder_id, size, encoded_size, md5)),
        keys_sorted(media_folder_properties(size, encoded_size, md5)),
        keys_sorted(document_members(parent_id, order)),
        keys_sorted(document_properties()),
{
    reveal_strlit("mimeType");
    reveal_strlit("name");
    reveal_strlit("parents");
    reveal_strlit("properties");
    reveal_strlit("encoded_size");
    reveal_strlit("md5");
    reveal_strlit("size");
    reveal_strlit("uds");
    reveal_with_fuel(seq_less, 2);
    assert(seq_less("mimeType"@, "name"@));
    assert(seq_less("name"@, "parents"@));
    assert(seq_less("name"@, "properties"@));
    assert("parents"@.drop_first()[0] == 'a');
    assert("properties"@.drop_first()[0] == 'r');
    assert(seq_less("parents"@, "properties"@));
    assert(seq_less("encoded_size"@, "md5"@));
    assert(seq_less("md5"@, "size"@));
    assert(seq_less("size"@, "uds"@));
    let rm = root_folder_members();
    assert forall|i: int| 0 <= i < rm.len() - 1 implies seq_less(#[trigger] rm[i].0, rm[i + 1].0) by {
    }
    let mm = media_folder_members(name, root_folder_id, size, encoded_size, md5);
    assert forall|i: int| 0 <= i < mm.len() - 1 implies seq_less(#[trigger] mm[i].0, mm[i + 1].0) by {
    }
    let mp = media_folder_properties(size, encoded_size, md5);
    assert forall|i: int| 0 <= i < mp.len() - 1 implies seq_less(#[trigger] mp[i].0, mp[i + 1].0) by {
    }
    let dm = document_members(parent_id, order);
    assert forall|i: int| 0 <= i < dm.len() - 1 implies seq_less(#[trigger] dm[i].0, dm[i + 1].0) by {
    }
}

/// The folder of an uploaded file lies in the root folder (its `parents`
/// are the root folder's id), carries the property `uds` = `true` that
/// `find_uploaded_files` searches for, and has no `udsRoot` key, the property
/// that only the root folder carries and that `find_root_folder` searches
/// for. Whether Drive lists it so is up to Drive.
pub proof fn lemma_media_folder_is_not_root(
    name: Seq<char>,
    root_folder_id: Seq<char>,
    size: Seq<char>,
    encoded_size: Seq<char>,
    md5: Seq<char>,
)
    ensures
        media_folder_members(name, root_folder_id, size, encoded_size, md5)[2] == (
            "parents"@,
            json_array(seq![json_quoted(root_folder_id)]),
        ),
        media_folder_properties(size, encoded_size, md5).contains(("uds"@, "true"@)),
        forall|i: int|
            0 <= i < media_folder_properties(size, encoded_size, md5).len() ==> (
            #[trigger] media_folder_properties(size, encoded_size, md5)[i]).0 != "udsRoot"@,
        forall|i: int|
            0 <= i < media_folder_members(name, root_folder_id, size, encoded_size, md5).len() ==> (
            #[trigger] media_folder_members(name, root_folder_id, size, encoded_size, md5)[i]).0
                != "udsRoot"@,
        root_folder_properties().contains(("udsRoot"@, "true"@)),
{
    reveal_strlit("mimeType");
    reveal_strlit("name");
    reveal_strlit("parents");
    reveal_strlit("properties");
    reveal_strlit("encoded_size");
    reveal_strlit("md5");
    reveal_strlit("size");
    reveal_strlit("uds");
    reveal_strlit("udsRoot");
    let mp = media_folder_properties(size, encoded_size, md5);
    assert(mp[3] == ("uds"@, "true"@));
    let rp = root_folder_properties();
    assert(rp[0] == ("udsRoot"@, "true"@));
    assert("parents"@[0] != "udsRoot"@[0]);
    assert("uds"@.len() != "udsRoot"@.len());
}

/// The metadata of a document is the JSON object with the members
/// `mimeType`, `name`, `parents` and `properties` in key order; the strings
/// put in it (the document's name and its parent's id) read back unchanged.
pub proof fn lemma_document_metadata_reads_back(parent_id: Seq<char>, order: Seq<char>)
    ensures
        document_metadata(parent_id, order) == json_object(document_members(parent_id, order)),
        keys_sorted(document_members(parent_id, order)),
        document_members(parent_id, order)[1] == ("name"@, json_quoted(order)),
        document_members(parent_id, order)[2] == (
            "parents"@,
            json_array(seq![json_quoted(parent_id)]),
        ),
        json_unescaped(json_escaped(order)) == order,
        json_unescaped(json_escaped(parent_id)) == parent_id,
{
    lemma_bodies_keys_sorted(
        Seq::<char>::empty(),
        Seq::<char>::empty(),
        Seq::<char>::empty(),
        Seq::<char>::empty(),
        Seq::<char>::empty(),
        parent_id,
        order,
    );
    lemma_json_escape_roundtrip(order);
    lemma_json_escape_roundtrip(parent_id);
}

/// The folder of an uploaded file carries the whole of what it is given: a
/// JSON reader gets back from its `name` member the name passed in, from
/// its `parents` array the root folder's id, and from its properties the
/// size, encoded size and digest, whatever their lengths.
pub proof fn lemma_media_folder_values(
    name: Seq<char>,
    root_folder_id: Seq<char>,
    size: Seq<char>,
    encoded_size: Seq<char>,
    md5: Seq<char>,
)
    ensures
        media_folder_body(name, root_folder_id, size, encoded_size, md5) == json_object(
            media_folder_members(name, root_folder_id, size, encoded_size, md5),
        ),
        media_folder_members(name, root_folder_id, size, encoded_size, md5).len() == 4,
        media_folder_members(name, root_folder_id, size, encoded_size, md5)[1].0 == "name"@,
        json_string_value(media_folder_members(name, root_folder_id, size, encoded_size, md5)[1].1)
            == name,
        media_folder_members(name, root_folder_id, size, encoded_size, md5)[2].0 == "parents"@,
        media_folder_members(name, root_folder_id, size, encoded_size, md5)[2].1 == "["@
            + json_quoted(root_folder_id) + "]"@,
        json_string_value(json_quoted(root_folder_id)) == root_folder_id,
        media_folder_properties(size, encoded_size, md5).len() == 4,
        json_string_value(media_folder_properties(size, encoded_size, md5)[0].1) == encoded_size,
        json_string_value(media_folder_properties(size, encoded_size, md5)[1].1) == md5,
        json_string_value(media_folder_properties(size, encoded_size, md5)[2].1) == size,
{
    lemma_json_quoted_value(name);
    lemma_json_quoted_value(root_folder_id);
    lemma_json_quoted_value(size);
    lemma_json_quoted_value(encoded_size);
    lemma_json_quoted_value(md5);
    let items = seq![json_quoted(root_folder_id)];
    assert(crate::json::json_items(items) == json_quoted(root_folder_id));
}

/// The document's metadata carries its name and its folder's id whole: a
/// JSON reader gets them back from the `name` member and the `parents`
/// array, whatever their lengths.
pub proof fn lemma_document_values(parent_id: Seq<char>, order: Seq<char>)
    ensures
        document_members(parent_id, order).len() == 4,
        document_members(parent_id, order)[1].0 == "name"@,
        json_string_value(document_members(parent_id, order)[1].1) == order,
        document_members(parent_id, order)[2].1 == "["@ + json_quoted(parent_id) + "]"@,
        json_string_value(json_quoted(parent_id)) == parent_id,
{
    lemma_json_quoted_value(order);
    lemma_json_quoted_value(parent_id);
    let items = seq![json_quoted(parent_id)];
    assert(crate::json::json_items(items) == json_quoted(parent_id));
}

/// Every URL carries the access token whole, whatever its length: the
/// creation and upload URLs end with it after a fixed prefix, a listing URL
/// holds it right after the prefix of the creation URL, and two different
/// tokens (or two different queries) never give the same URL.
pub proof fn lemma_urls_carry_token(
    t: Seq<char>,
    t2: Seq<char>,
    q: Seq<char>,
    q2: Seq<char>,
    f: Seq<char>,
)
    ensures
        create_url(t) == create_url(Seq::<char>::empty()) + t,
        upload_url(t) == upload_url(Seq::<char>::empty()) + t,
        list_url(t, q, f).len() == list_url(Seq::<char>::empty(), q, f).len() + t.len(),
        list_url(t, q, f).subrange(0, create_url(t).len() as int) == create_url(t),
        upload_url(t) == upload_url(t2) ==> t == t2,
        create_url(t) == create_url(t2) ==> t == t2,
        list_url(t, q, f) == list_url(t2, q, f) ==> t == t2,
        list_url(t, q, f) == list_url(t, q2, f) ==> q == q2,
{
    let e = Seq::<char>::empty();
    assert(create_url(t) =~= create_url(e) + t);
    assert(upload_url(t) =~= upload_url(e) + t);
    assert(list_url(t, q, f).subrange(0, create_url(t).len() as int) =~= create_url(t));
    let pu = upload_url(e);
    if upload_url(t) == upload_url(t2) {
        assert(t =~= upload_url(t).subrange(pu.len() as int, upload_url(t).len() as int));
        assert(t2 =~= upload_url(t2).subrange(pu.len() as int, upload_url(t2).len() as int));
    }
    let pc = create_url(e);
    assert(create_url(t2) =~= pc + t2);
    if create_url(t) == create_url(t2) {
        assert(t =~= create_url(t).subrange(pc.len() as int, create_url(t).len() as int));
        assert(t2 =~= create_url(t2).subrange(pc.len() as int, create_url(t2).len() as int));
    }
    if list_url(t, q, f) == list_url(t2, q, f) {
        let l = list_url(t, q, f);
        assert(l.len() == pc.len() + t.len() + "&q="@.len() + q.len() + "&fields="@.len() + f.len()
            + "&pageSize=1000"@.len());
        assert(t =~= l.subrange(pc.len() as int, (pc.len() + t.len()) as int));
        assert(t2 =~= list_url(t2, q, f).subrange(pc.len() as int, (pc.len() + t2.len()) as int));
    }
    if list_url(t, q, f) == list_url(t, q2, f) {
        let l = list_url(t, q, f);
        let start: int = (pc.len() + t.len() + "&q="@.len()) as int;
        assert(q =~= l.subrange(start, start + q.len() as int));
        assert(q2 =~= list_url(t, q2, f).subrange(start, start + q2.len() as int));
    }
}

/// The search query for the parts of an upload quotes the folder's id whole:
/// it is the id put between the two halves of the query for the empty id,
/// and two different ids never give the same query.
pub proof fn lemma_chunk_query_whole(p: Seq<char>, p2: Seq<char>)
    ensures
        chunk_query(p) == chunk_query(Seq::<char>::empty()).take(1) + p + chunk_query(
            Seq::<char>::empty(),
        ).skip(1),
        chunk_query(p) == chunk_query(p2) ==> p == p2,
{
    let e = chunk_query(Seq::<char>::empty());
    assert(e =~= "'"@ + "' in parents and trashed=false"@);
    reveal_strlit("'");
    assert("'"@.len() == 1);
    assert(e.take(1) =~= "'"@);
    assert(e.skip(1) =~= "' in parents and trashed=false"@);
    assert(chunk_query(p) =~= e.take(1) + p + e.skip(1));
    assert(chunk_query(p2) =~= e.take(1) + p2 + e.skip(1));
    if chunk_query(p) == chunk_query(p2) {
        assert(p =~= chunk_query(p).subrange(1, 1 + p.len() as int));
        assert(p2 =~= chunk_query(p2).subrange(1, 1 + p2.len() as int));
    }
}

} // verus!
