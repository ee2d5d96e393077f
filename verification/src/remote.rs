use vstd::prelude::*;
use crate::config::OAuthConfig;
use crate::credential::CredentialStore;
use crate::error::{text_option, text_result, unit_result, str_option, ErrorView, UploadError};
use crate::json::{
    json_object_text, json_string_member, render_object, string_member, JsonField, JsonMember,
    JsonMemberView,
};

verus! {

/// The type marker that makes a remote node a folder.
pub const FOLDER_MIME_TYPE: &'static str = "application/vnd.google-apps.folder";

/// The status with which the service rejects a credential.
pub const UNAUTHORIZED: u16 = 401;

/// Where an access token is obtained.
pub const TOKEN_ENDPOINT: &'static str = "https://oauth2.googleapis.com/token";

/// Where folders are created.
pub const FILES_ENDPOINT: &'static str = "https://www.googleapis.com/drive/v3/files";

/// Where files are uploaded, metadata and content in one request.
pub const UPLOAD_ENDPOINT: &'static str =
    "https://www.googleapis.com/upload/drive/v3/files?uploadType=multipart";

/// One field of a form: its name and its value.
#[derive(Debug, Clone, PartialEq, Eq)]
pub struct FormField {
    pub name: String,
    pub value: String,
}

impl View for FormField {
    type V = (Seq<char>, Seq<char>);

    open spec fn view(&self) -> (Seq<char>, Seq<char>) {
        (self.name@, self.value@)
    }
}

/// The form of a token exchange: the client's identifier and secret, the
/// long-lived refresh token, and the grant type that names it.
pub open spec fn token_form_spec(
    client_id: Seq<char>,
    client_secret: Seq<char>,
    refresh_token: Seq<char>,
) -> Seq<(Seq<char>, Seq<char>)> {
    seq![
        ("client_id"@, client_id),
        ("client_secret"@, client_secret),
        ("refresh_token"@, refresh_token),
        ("grant_type"@, "refresh_token"@),
    ]
}

/// Builds the form of a token exchange.
pub fn token_form(oauth: &OAuthConfig) -> (form: Vec<FormField>)
    ensures
        form@.map_values(|f: FormField| f@) == token_form_spec(
            oauth.client_id@,
            oauth.client_secret@,
            oauth.refresh_token@,
        ),
{
    let mut form: Vec<FormField> = Vec::new();
    form.push(FormField { name: "client_id".to_owned(), value: oauth.client_id.clone() });
    form.push(FormField { name: "client_secret".to_owned(), value: oauth.client_secret.clone() });
    form.push(
        FormField { name: "refresh_token".to_owned(), value: oauth.refresh_token.clone() },
    );
    form.push(FormField { name: "grant_type".to_owned(), value: "refresh_token".to_owned() });
    assert(form@.map_values(|f: FormField| f@) =~= token_form_spec(
        oauth.client_id@,
        oauth.client_secret@,
        oauth.refresh_token@,
    ));
    form
}

/// Whether `status` reports success: 200 up to 299.
pub open spec fn is_success(status: u16) -> bool {
    200 <= status < 300
}

/// Decides whether `status` reports success.
pub fn status_is_success(status: u16) -> (b: bool)
    ensures
        b == is_success(status),
{
    200 <= status && status < 300
}

/// What a create or upload request says of the node: its name, its type
/// marker where it is a folder, and the folders it is put under.
#[derive(Debug, Clone, PartialEq, Eq)]
pub struct FileMetadata {
    pub name: String,
    pub mime_type: Option<String>,
    pub parents: Vec<String>,
}

/// The mathematical value of a [`FileMetadata`].
pub struct MetadataView {
    pub name: Seq<char>,
    pub mime_type: Option<Seq<char>>,
    pub parents: Seq<Seq<char>>,
}

impl View for FileMetadata {
    type V = MetadataView;

    open spec fn view(&self) -> MetadataView {
        MetadataView {
            name: self.name@,
            mime_type: text_option(self.mime_type),
            parents: self.parents@.map_values(|p: String| p@),
        }
    }
}

/// The members of the JSON object that carries the metadata: the name, the
/// type marker where there is one, and the parents where there are any.
pub open spec fn metadata_fields(m: MetadataView) -> Seq<(Seq<char>, JsonMemberView)> {
    seq![("name"@, JsonMemberView::Text(m.name))] + (match m.mime_type {
        Some(marker) => seq![("mimeType"@, JsonMemberView::Text(marker))],
        None => Seq::empty(),
    }) + (if m.parents.len() > 0 {
        seq![("parents"@, JsonMemberView::TextList(m.parents))]
    } else {
        Seq::empty()
    })
}

/// A copy of `texts`.
fn copy_texts(texts: &Vec<String>) -> (copy: Vec<String>)
    ensures
        copy@.map_values(|t: String| t@) == texts@.map_values(|t: String| t@),
{
    let mut copy: Vec<String> = Vec::new();
    let mut i: usize = 0;
    while i < texts.len()
        invariant
            i <= texts@.len(),
            copy@.len() == i,
            forall|k: int| 0 <= k < i ==> copy@[k]@ == texts@[k]@,
        decreases texts.len() - i,
    {
        copy.push(texts[i].clone());
        i = i + 1;
    }
    assert(copy@.map_values(|t: String| t@) =~= texts@.map_values(|t: String| t@));
    copy
}

impl FileMetadata {
    /// The members of the JSON object that carries this metadata.
    pub fn fields(&self) -> (fields: Vec<JsonField>)
        ensures
            fields@.map_values(|f: JsonField| f@) == metadata_fields(self@),
    {
        let mut fields: Vec<JsonField> = Vec::new();
        fields.push(JsonField { key: "name".to_owned(), value: JsonMember::Text(self.name.clone()) });
        match &self.mime_type {
            Some(marker) => {
                fields.push(
                    JsonField { key: "mimeType".to_owned(), value: JsonMember::Text(marker.clone()) },
                );
            },
            None => {},
        }
        if self.parents.len() > 0 {
            fields.push(
                JsonField {
                    key: "parents".to_owned(),
                    value: JsonMember::TextList(copy_texts(&self.parents)),
                },
            );
        }
        assert(fields@.map_values(|f: JsonField| f@) =~= metadata_fields(self@));
        fields
    }

    /// The JSON text that carries this metadata in a request.
    pub fn to_json(&self) -> (text: String)
        ensures
            text@ == json_object_text(metadata_fields(self@)),
    {
        let fields = self.fields();
        render_object(&fields)
    }
}

/// The request that creates the folder `name`, under `parent` where one is given.
pub open spec fn folder_request_spec(name: Seq<char>, parent: Option<Seq<char>>) -> MetadataView {
    MetadataView {
        name,
        mime_type: Some(FOLDER_MIME_TYPE@),
        parents: match parent {
            Some(p) => seq![p],
            None => seq![],
        },
    }
}

/// Builds the request that creates the folder `name`.
pub fn folder_request(name: &str, parent: Option<&str>) -> (m: FileMetadata)
    ensures
        m@ == folder_request_spec(name@, str_option(parent)),
{
    let mut parents: Vec<String> = Vec::new();
    match parent {
        Some(p) => {
            parents.push(p.to_owned());
        },
        None => {},
    }
    let m = FileMetadata {
        name: name.to_owned(),
        mime_type: Some(FOLDER_MIME_TYPE.to_owned()),
        parents,
    };
    assert(m@.parents =~= folder_request_spec(name@, str_option(parent)).parents);
    m
}

/// The metadata part of an upload: the file's base name and its one parent.
/// A path without a base name that is text cannot be uploaded.
pub open spec fn upload_request_spec(file_name: Option<Seq<char>>, parent: Seq<char>) -> Result<
    MetadataView,
    ErrorView,
> {
    match file_name {
        Some(name) => Ok(MetadataView { name, mime_type: None, parents: seq![parent] }),
        None => Err(ErrorView::LocalIo),
    }
}

/// The value of a result that carries metadata.
pub open spec fn metadata_result(r: Result<FileMetadata, UploadError>) -> Result<
    MetadataView,
    ErrorView,
> {
    match r {
        Ok(m) => Ok(m@),
        Err(e) => Err(e@),
    }
}

/// Builds the metadata part of the upload of a file with base name `file_name`.
pub fn upload_request(file_name: Option<&str>, parent_id: &str) -> (r: Result<
    FileMetadata,
    UploadError,
>)
    ensures
        metadata_result(r) == upload_request_spec(str_option(file_name), parent_id@),
{
    match file_name {
        Some(name) => {
            let mut parents: Vec<String> = Vec::new();
            parents.push(parent_id.to_owned());
            let m = FileMetadata { name: name.to_owned(), mime_type: None, parents };
            assert(m@.parents =~= seq![parent_id@]);
            Ok(m)
        },
        None => Err(UploadError::LocalIo),
    }
}

/// How the reply to a token exchange is read: any status but a success is a
/// failed exchange; a success must carry the new token.
pub open spec fn token_reply_spec(status: u16, member: Option<Seq<char>>) -> Result<
    Seq<char>,
    ErrorView,
> {
    if !is_success(status) {
        Err(ErrorView::Auth)
    } else {
        match member {
            Some(token) => Ok(token),
            None => Err(ErrorView::MalformedResponse),
        }
    }
}

/// Reads the reply to a token exchange, given the `access_token` member of its body.
pub fn token_from_reply(status: u16, member: Option<String>) -> (r: Result<String, UploadError>)
    ensures
        text_result(r) == token_reply_spec(status, text_option(member)),
{
    if !status_is_success(status) {
        Err(UploadError::Auth)
    } else {
        match member {
            Some(token) => Ok(token),
            None => Err(UploadError::MalformedResponse),
        }
    }
}

/// Reads the reply to a token exchange.
pub fn read_token_reply(status: u16, body: &str) -> (r: Result<String, UploadError>)
    ensures
        text_result(r) == token_reply_spec(status, json_string_member(body@, "access_token"@)),
{
    let member = string_member(body, "access_token");
    token_from_reply(status, member)
}

/// How the reply to a create-folder request is read. A rejected credential
/// comes first; then a success must carry the new folder's identifier; any
/// other status is handed on with the body.
pub open spec fn folder_reply_spec(status: u16, member: Option<Seq<char>>, body: Seq<char>) -> Result<
    Seq<char>,
    ErrorView,
> {
    if status == UNAUTHORIZED {
        Err(ErrorView::Unauthorized)
    } else if !is_success(status) {
        Err(ErrorView::RemoteApi { status, body })
    } else {
        match member {
            Some(id) => Ok(id),
            None => Err(ErrorView::MalformedResponse),
        }
    }
}

/// Reads the reply to a create-folder request, given the `id` member of its body.
pub fn folder_from_reply(status: u16, member: Option<String>, body: &str) -> (r: Result<
    String,
    UploadError,
>)
    ensures
        text_result(r) == folder_reply_spec(status, text_option(member), body@),
{
    if status == UNAUTHORIZED {
        Err(UploadError::Unauthorized)
    } else if !status_is_success(status) {
        Err(UploadError::RemoteApi { status, body: body.to_owned() })
    } else {
        match member {
            Some(id) => Ok(id),
            None => Err(UploadError::MalformedResponse),
        }
    }
}

/// Reads the reply to a create-folder request.
pub fn read_folder_reply(status: u16, body: &str) -> (r: Result<String, UploadError>)
    ensures
        text_result(r) == folder_reply_spec(status, json_string_member(body@, "id"@), body@),
{
    let member = string_member(body, "id");
    folder_from_reply(status, member, body)
}

/// How the reply to an upload is read: any success status is a success.
pub open spec fn upload_reply_spec(status: u16, body: Seq<char>) -> Result<(), ErrorView> {
    if status == UNAUTHORIZED {
        Err(ErrorView::Unauthorized)
    } else if !is_success(status) {
        Err(ErrorView::RemoteApi { status, body })
    } else {
        Ok(())
    }
}

/// Reads the reply to an upload.
pub fn read_upload_reply(status: u16, body: &str) -> (r: Result<(), UploadError>)
    ensures
        unit_result(r) == upload_reply_spec(status, body@),
{
    if status == UNAUTHORIZED {
        Err(UploadError::Unauthorized)
    } else if !status_is_success(status) {
        Err(UploadError::RemoteApi { status, body: body.to_owned() })
    } else {
        Ok(())
    }
}

/// Decides whether the reply asks for a token exchange: only a rejected
/// credential does.
pub fn refresh_due(status: u16) -> (due: bool)
    ensures
        due == (status == UNAUTHORIZED),
{
    status == UNAUTHORIZED
}

/// The token that the store holds after a token exchange made for a rejected
/// call: the new one where the exchange gave one, else the one it held.
pub open spec fn token_after_refresh(held: Seq<char>, exchange: Result<Seq<char>, ErrorView>) -> Seq<
    char,
> {
    match exchange {
        Ok(token) => token,
        Err(_) => held,
    }
}

/// What the rejected call reports once the exchange is over. The call itself
/// stays failed: with a new token its caller may retry, without one it
/// reports the failed exchange.
pub open spec fn error_after_refresh(exchange: Result<Seq<char>, ErrorView>) -> ErrorView {
    match exchange {
        Ok(_) => ErrorView::RetryNeeded,
        Err(_) => ErrorView::Auth,
    }
}

/// Ends the renewal that a rejected call started: stores the new token where
/// the exchange gave one, and says what the rejected call reports.
pub fn settle_refresh(store: &mut CredentialStore, exchange: Result<String, UploadError>) -> (e:
    UploadError)
    ensures
        final(store)@ == token_after_refresh(old(store)@, text_result(exchange)),
        e@ == error_after_refresh(text_result(exchange)),
{
    match exchange {
        Ok(token) => {
            store.replace(token);
            UploadError::RetryNeeded
        },
        Err(_) => UploadError::Auth,
    }
}

} // verus!
