//! Avatars: what may be uploaded, under which name it is stored, and what is
//! served.
use crate::account::User;
use crate::account::UserRow;
use crate::auth::is_admin_user;
use crate::crypto::random_uuid;
use crate::crypto::FreshId;
use crate::status::Status;
use crate::text::contains_char;
use crate::text::contains_doubled;
use crate::text::same_text;
use crate::text::split_at_each;
use crate::text::strip_prefix;
use crate::text::to_lowercase;
use vstd::prelude::*;
use vstd::string::StringExecFns;

verus! {

/// The directory that avatars are stored in.
pub const AVATAR_DIRECTORY: &'static str = "uploads/avatars";

/// What stands before the name of an avatar in its path.
pub const AVATAR_PATH_PREFIX: &'static str = "uploads/avatars/";

/// What stands before the name of an avatar in its URL.
pub const AVATAR_URL_PREFIX: &'static str = "/api/avatars/";

/// The form field that holds an avatar.
pub const AVATAR_FIELD: &'static str = "avatar";

/// How many bytes an avatar may have.
pub const MAX_AVATAR_SIZE: usize = 2_097_152;

/// An avatar that is being uploaded.
#[derive(Debug)]
pub struct Upload {
    /// The name that it is stored under.
    pub name: String,
    /// What has arrived of it.
    pub data: Vec<u8>,
}

/// An avatar that is to be stored.
#[derive(Debug)]
pub struct StoredAvatar {
    pub path: String,
    pub url: String,
    pub data: Vec<u8>,
    /// The path of the avatar that it replaces.
    pub replaced_path: Option<String>,
}

/// An avatar that is served.
#[derive(Debug)]
pub struct AvatarResponse {
    pub content_type: String,
    pub data: Vec<u8>,
}

// ---------------------------------------------------------------------------
// Specifications.
// ---------------------------------------------------------------------------
/// The extensions of avatars.
pub open spec fn is_avatar_extension(extension: Seq<char>) -> bool {
    ||| extension == "png"@
    ||| extension == "jpg"@
    ||| extension == "jpeg"@
    ||| extension == "gif"@
    ||| extension == "webp"@
}

/// What stands behind the last dot of a name; the name where it has no dot.
pub open spec fn raw_extension(name: Seq<char>) -> Seq<char> {
    crate::text::split(name, '.').last()
}

/// The extension of an uploaded file, in lower case.
pub open spec fn extension_of(name: Seq<char>) -> Seq<char> {
    crate::text::lowercased(raw_extension(name))
}

/// A lower-case hexadecimal digit.
pub open spec fn is_hex_digit(c: char) -> bool {
    '0' <= c <= '9' || 'a' <= c <= 'f'
}

/// The text of a UUID: lower-case hexadecimal digits in groups of eight, four,
/// four, four and twelve, with hyphens between them.
pub open spec fn is_uuid_text(text: Seq<char>) -> bool {
    &&& text.len() == 36
    &&& forall|i: int|
        0 <= i < 36 ==> if i == 8 || i == 13 || i == 18 || i == 23 {
            #[trigger] text[i] == '-'
        } else {
            is_hex_digit(text[i])
        }
}

/// The name that an avatar is stored under.
pub open spec fn avatar_name(uuid: Seq<char>, extension: Seq<char>) -> Seq<char> {
    uuid + "."@ + extension
}

/// Where the avatar with a given name is stored.
pub open spec fn avatar_path(name: Seq<char>) -> Seq<char> {
    AVATAR_PATH_PREFIX@ + name
}

/// Under which URL the avatar with a given name is served.
pub open spec fn avatar_url(name: Seq<char>) -> Seq<char> {
    AVATAR_URL_PREFIX@ + name
}

/// Where the avatar with a given URL is stored; nothing for a URL that is none
/// of an avatar.
pub open spec fn path_of_url(url: Option<Seq<char>>) -> Option<Seq<char>> {
    match url {
        Some(url) => match crate::text::without_prefix(url, AVATAR_URL_PREFIX@) {
            Some(name) => Some(avatar_path(name)),
            None => None,
        },
        None => None,
    }
}

/// The names that avatars are served under: they stay in the directory.
pub open spec fn is_servable(name: Seq<char>) -> bool {
    &&& !name.contains('/')
    &&& !name.contains('\\')
    &&& !(exists|i: int| crate::text::doubled_at(name, '.', i))
}

/// The content type that `mime_guess` finds for a file name.
pub uninterp spec fn guessed_type(name: Seq<char>) -> Seq<char>;

// ---------------------------------------------------------------------------
// Outside functions.
// ---------------------------------------------------------------------------
/// Calls `mime_guess::from_path` and takes the first guess, or the type of a
/// byte stream where there is none. The contract claims that the outcome
/// depends on the name alone.
#[verifier::external_body]
fn guess_type(name: &str) -> (r: String)
    ensures
        r@ == guessed_type(name@),
{
    mime_guess::from_path(name).first_or_octet_stream().to_string()
}

// ---------------------------------------------------------------------------
// Uploads.
// ---------------------------------------------------------------------------
/// Whether a form field holds an avatar.
pub fn is_avatar_field(name: Option<&str>) -> (r: bool)
    ensures
        r == (name is Some && name->0@ == AVATAR_FIELD@),
{
    match name {
        Some(name) => same_text(name, AVATAR_FIELD),
        None => false,
    }
}

/// Whether files with an extension may be uploaded.
pub fn is_allowed_extension(extension: &str) -> (r: bool)
    ensures
        r == is_avatar_extension(extension@),
        r <==> seq!["png"@, "jpg"@, "jpeg"@, "gif"@, "webp"@].contains(extension@),
{
    proof {
        crate::avatar_laws::law_five_extensions_are_accepted(extension@);
    }
    same_text(extension, "png") || same_text(extension, "jpg") || same_text(extension, "jpeg")
        || same_text(extension, "gif") || same_text(extension, "webp")
}

/// What stands behind the last dot of a name.
pub fn last_extension(name: &str) -> (r: &str)
    ensures
        r@ == raw_extension(name@),
{
    let pieces: Vec<&str> = split_at_each(name, '.');
    proof {
        crate::text::lemma_split_nonempty(name@, '.');
    }
    assert(crate::text::views(pieces@) == crate::text::split(name@, '.'));
    let len: usize = pieces.len();
    assert(crate::text::views(pieces@)[len - 1] == pieces@[len - 1]@);
    pieces[len - 1]
}

/// The extension of an uploaded file, or why the file is refused: a file needs
/// a name, and one of the known extensions.
pub fn upload_extension(file_name: Option<&str>) -> (r: Result<String, Status>)
    ensures
        match r {
            Ok(extension) => file_name is Some && file_name->0@.len() > 0 && extension@
                == extension_of(file_name->0@) && is_avatar_extension(extension@),
            Err(status) => if file_name is None || file_name->0@.len() == 0 {
                status == Status::BadRequest
            } else {
                !is_avatar_extension(extension_of(file_name->0@)) && status
                    == Status::UnsupportedMediaType
            },
        },
        file_name is Some && crate::text::is_ascii_text(raw_extension(file_name->0@)) ==> (r is Ok
            <==> file_name->0@.len() > 0 && is_avatar_extension(
            crate::text::ascii_lowered(raw_extension(file_name->0@)),
        )),
        file_name is Some && crate::text::is_ascii_text(raw_extension(file_name->0@)) ==> (
        r matches Ok(extension) ==> extension@ == crate::text::ascii_lowered(
            raw_extension(file_name->0@),
        )),
        file_name is Some && file_name->0@.len() > 0 && crate::text::is_ascii_text(
            raw_extension(file_name->0@),
        ) ==> (r is Ok <==> seq!["png"@, "jpg"@, "jpeg"@, "gif"@, "webp"@].contains(
            crate::text::ascii_lowered(raw_extension(file_name->0@)),
        )),
        file_name is Some && file_name->0@.len() > 0 && r is Err ==> r->Err_0
            == Status::UnsupportedMediaType,
{
    match file_name {
        None => Err(Status::BadRequest),
        Some(name) => {
            if name.is_empty() {
                return Err(Status::BadRequest);
            }
            let extension: String = to_lowercase(last_extension(name));
            if is_allowed_extension(extension.as_str()) {
                Ok(extension)
            } else {
                Err(Status::UnsupportedMediaType)
            }
        },
    }
}

impl Upload {
    /// What has arrived is not too much.
    pub open spec fn wf(self) -> bool {
        self.data@.len() <= MAX_AVATAR_SIZE
    }

    /// An upload of which nothing has arrived, under a given identifier.
    pub fn named(uuid: &str, extension: &str) -> (r: Upload)
        ensures
            r.name@ == avatar_name(uuid@, extension@),
            r.data@ == Seq::<u8>::empty(),
            r.wf(),
    {
        let mut name: String = uuid.to_owned();
        name.append(".");
        name.append(extension);
        Upload { name, data: Vec::new() }
    }

    /// Starts an upload under a name of its own, which keeps the extension of
    /// the file.
    pub fn begin(file_name: Option<&str>) -> (r: Result<Upload, Status>)
        ensures
            match r {
                Ok(upload) => file_name is Some && file_name->0@.len() > 0 && is_avatar_extension(
                    extension_of(file_name->0@),
                ) && upload.data@.len() == 0 && upload.wf() && exists|id: FreshId|
                    is_uuid_text(id.text()) && upload.name@ == #[trigger] avatar_name(
                        id.text(),
                        extension_of(file_name->0@),
                    ),
                Err(status) => if file_name is None || file_name->0@.len() == 0 {
                    status == Status::BadRequest
                } else {
                    !is_avatar_extension(extension_of(file_name->0@)) && status
                        == Status::UnsupportedMediaType
                },
            },
            file_name is Some && crate::text::is_ascii_text(raw_extension(file_name->0@)) ==> (r
                is Ok <==> file_name->0@.len() > 0 && is_avatar_extension(
                crate::text::ascii_lowered(raw_extension(file_name->0@)),
            )),
    {
        match upload_extension(file_name) {
            Ok(extension) => {
                let uuid: FreshId = random_uuid();
                Ok(Upload::named(uuid.as_str(), extension.as_str()))
            },
            Err(status) => Err(status),
        }
    }

    /// Takes the next bytes, as long as they are not too many.
    pub fn receive(&mut self, chunk: &[u8]) -> (r: Result<(), Status>)
        ensures
            final(self).name == old(self).name,
            final(self).data@ == old(self).data@ + chunk@,
            r is Ok <==> final(self).wf(),
            r matches Err(status) ==> status == Status::PayloadTooLarge,
    {
        self.data.extend_from_slice(chunk);
        if self.data.len() > MAX_AVATAR_SIZE {
            Err(Status::PayloadTooLarge)
        } else {
            Ok(())
        }
    }

    /// Ends an upload once all its bytes have arrived; there have to be some.
    pub fn complete(self) -> (r: Result<Upload, Status>)
        ensures
            match r {
                Ok(upload) => upload == self && self.data@.len() > 0,
                Err(status) => self.data@.len() == 0 && status == Status::BadRequest,
            },
    {
        if self.data.is_empty() {
            Err(Status::BadRequest)
        } else {
            Ok(self)
        }
    }

    /// What to store, once the URL of the user's avatar was looked up; nothing
    /// where the lookup failed.
    pub fn store(self, old_url: Option<Option<&str>>) -> (r: Result<StoredAvatar, Status>)
        ensures
            match r {
                Ok(stored) => old_url is Some && stored.path@ == avatar_path(self.name@)
                    && stored.url@ == avatar_url(self.name@) && stored.data@ == self.data@
                    && crate::text::optional_string(stored.replaced_path) == path_of_url(
                    crate::text::optional_text(old_url->0),
                ),
                Err(status) => old_url is None && status == Status::InternalServerError,
            },
    {
        match old_url {
            None => Err(Status::InternalServerError),
            Some(url) => {
                let replaced_path: Option<String> = match url {
                    Some(url) => match strip_prefix(url, AVATAR_URL_PREFIX) {
                        Some(name) => Some(prefixed(AVATAR_PATH_PREFIX, name)),
                        None => None,
                    },
                    None => None,
                };
                Ok(
                    StoredAvatar {
                        path: prefixed(AVATAR_PATH_PREFIX, self.name.as_str()),
                        url: prefixed(AVATAR_URL_PREFIX, self.name.as_str()),
                        data: self.data,
                        replaced_path,
                    },
                )
            },
        }
    }
}

fn prefixed(prefix: &str, name: &str) -> (r: String)
    ensures
        r@ == prefix@ + name@,
{
    let mut text: String = prefix.to_owned();
    text.append(name);
    text
}

/// The answer to an upload: `stored` says whether a field held an avatar and,
/// where one did, whether it was stored; `row` is the user as looked up
/// afterwards.
pub fn upload_response(user_id: i32, stored: Option<bool>, row: Option<UserRow>) -> (r: Result<
    User,
    Status,
>)
    ensures
        match r {
            Ok(user) => stored == Some(true) && row is Some && user.id == row->0.id && user.name@
                == row->0.name@ && user.email@ == row->0.email@ && crate::text::optional_string(
                user.avatar_url,
            ) == crate::text::optional_string(row->0.avatar_url) && user.is_admin
                == crate::account::is_admin(user_id),
            Err(status) => match stored {
                None => status == Status::BadRequest,
                Some(false) => status == Status::InternalServerError,
                Some(true) => row is None && status == Status::InternalServerError,
            },
        },
{
    match (stored, row) {
        (None, _) => Err(Status::BadRequest),
        (Some(true), Some(row)) => Ok(
            User {
                id: row.id,
                name: row.name,
                email: row.email,
                avatar_url: row.avatar_url,
                is_admin: is_admin_user(user_id),
            },
        ),
        _ => Err(Status::InternalServerError),
    }
}

// ---------------------------------------------------------------------------
// Serving.
// ---------------------------------------------------------------------------
/// Where the requested avatar is stored, unless the name leaves the directory.
pub fn requested_path(name: &str) -> (r: Result<String, Status>)
    ensures
        match r {
            Ok(path) => is_servable(name@) && path@ == avatar_path(name@),
            Err(status) => !is_servable(name@) && status == Status::NotFound,
        },
{
    if contains_char(name, '/') || contains_char(name, '\\') || contains_doubled(name, '.') {
        Err(Status::NotFound)
    } else {
        Ok(prefixed(AVATAR_PATH_PREFIX, name))
    }
}

/// The answer to a request for an avatar, once its file was read; nothing
/// where it could not be.
pub fn serve_avatar(name: &str, data: Option<Vec<u8>>) -> (r: Result<AvatarResponse, Status>)
    ensures
        match r {
            Ok(response) => data == Some(response.data) && response.content_type@ == guessed_type(
                name@,
            ),
            Err(status) => data is None && status == Status::NotFound,
        },
{
    match data {
        Some(data) => Ok(AvatarResponse { content_type: guess_type(name), data }),
        None => Err(Status::NotFound),
    }
}

// ---------------------------------------------------------------------------
// Laws.
// ---------------------------------------------------------------------------
proof fn lemma_extension_characters(extension: Seq<char>)
    requires
        is_avatar_extension(extension),
    ensures
        forall|i: int| 0 <= i < extension.len() ==> 'a' <= #[trigger] extension[i] <= 'z',
{
    reveal_strlit("png");
    reveal_strlit("jpg");
    reveal_strlit("jpeg");
    reveal_strlit("gif");
    reveal_strlit("webp");
}

/// Every avatar that is stored can be served.
pub proof fn law_stored_avatars_are_served(uuid: Seq<char>, extension: Seq<char>)
    requires
        is_uuid_text(uuid),
        is_avatar_extension(extension),
    ensures
        is_servable(avatar_name(uuid, extension)),
{
    reveal_strlit(".");
    lemma_extension_characters(extension);
    let name = avatar_name(uuid, extension);
    assert forall|i: int| 0 <= i < name.len() implies #[trigger] name[i] != '/' && name[i] != '\\'
        && (name[i] == '.' ==> i == 36) by {
        if i < 36 {
            assert(name[i] == uuid[i]);
        } else if i > 36 {
            assert(name[i] == extension[i - 37]);
        }
    }
}

/// The stored name of an avatar keeps its extension.
pub proof fn law_stored_avatars_keep_their_extension(uuid: Seq<char>, extension: Seq<char>)
    requires
        is_uuid_text(uuid),
        is_avatar_extension(extension),
    ensures
        raw_extension(avatar_name(uuid, extension)) == extension,
{
    reveal_strlit(".");
    lemma_extension_characters(extension);
    assert(avatar_name(uuid, extension) =~= uuid + seq!['.'] + extension);
    crate::text::lemma_split_join(uuid, extension, '.');
    crate::text::lemma_split_without_separator(extension, '.');
}

/// An avatar that is replaced is found where it was stored.
pub proof fn law_replaced_avatars_are_found(name: Seq<char>)
    ensures
        path_of_url(Some(avatar_url(name))) == Some(avatar_path(name)),
{
    assert(avatar_url(name).skip(AVATAR_URL_PREFIX@.len() as int) =~= name);
    assert(avatar_url(name).take(AVATAR_URL_PREFIX@.len() as int) =~= AVATAR_URL_PREFIX@);
}

/// A served file stands in the directory itself: behind the directory no
/// separator follows, and the name is not that of a parent.
pub proof fn law_served_files_stay_in_the_directory(name: Seq<char>, i: int)
    requires
        is_servable(name),
        AVATAR_PATH_PREFIX@.len() <= i < avatar_path(name).len(),
    ensures
        avatar_path(name)[i] != '/',
        avatar_path(name)[i] != '\\',
        name != ".."@,
{
    let at = i - AVATAR_PATH_PREFIX@.len();
    assert(avatar_path(name)[i] == name[at]);
    assert(name.contains(name[at]));
    reveal_strlit("..");
    if name == ".."@ {
        assert(crate::text::doubled_at(name, '.', 0));
    }
}

} // verus!
