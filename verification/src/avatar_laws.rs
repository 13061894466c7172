//! What holds of uploads, of the names of avatars and of what is served.
use crate::avatar::Upload;
use vstd::prelude::*;

verus! {

/// The extensions of avatars are these five, and no other.
pub proof fn law_five_extensions_are_accepted(extension: Seq<char>)
    ensures
        crate::avatar::is_avatar_extension(extension) <==> seq![
            "png"@,
            "jpg"@,
            "jpeg"@,
            "gif"@,
            "webp"@,
        ].contains(extension),
{
    let listed = seq!["png"@, "jpg"@, "jpeg"@, "gif"@, "webp"@];
    assert(listed[0] == "png"@);
    assert(listed[1] == "jpg"@);
    assert(listed[2] == "jpeg"@);
    assert(listed[3] == "gif"@);
    assert(listed[4] == "webp"@);
}

/// A text is this word, in whatever case its ASCII letters are.
pub open spec fn spells(text: Seq<char>, word: Seq<char>) -> bool {
    &&& text.len() == word.len()
    &&& forall|i: int|
        0 <= i < text.len() ==> crate::text::ascii_lower(#[trigger] text[i]) == word[i]
}

/// A text is one of the five extensions, in whatever case.
pub open spec fn spells_an_extension(text: Seq<char>) -> bool {
    ||| spells(text, "png"@)
    ||| spells(text, "jpg"@)
    ||| spells(text, "jpeg"@)
    ||| spells(text, "gif"@)
    ||| spells(text, "webp"@)
}

proof fn lemma_spelling_lowers(text: Seq<char>, word: Seq<char>)
    ensures
        spells(text, word) <==> crate::text::ascii_lowered(text) == word,
{
    let lowered = crate::text::ascii_lowered(text);
    if spells(text, word) {
        assert(lowered =~= word);
    }
    if lowered == word {
        assert forall|i: int| 0 <= i < text.len() implies crate::text::ascii_lower(
            #[trigger] text[i],
        ) == word[i] by {
            assert(lowered[i] == word[i]);
        }
    }
}

/// A file is judged by what follows the last dot of its name, or by the whole
/// name where it has no dot: it is accepted where that spells one of the five
/// extensions, in whatever case, and refused where it spells anything else.
pub proof fn law_files_are_judged_by_their_extension(stem: Seq<char>, extension: Seq<char>)
    requires
        !extension.contains('.'),
    ensures
        crate::avatar::raw_extension(stem + seq!['.'] + extension) == extension,
        crate::avatar::raw_extension(extension) == extension,
        crate::avatar::extension_of(stem + seq!['.'] + extension) == crate::text::lowercased(
            extension,
        ),
        crate::avatar::extension_of(extension) == crate::text::lowercased(extension),
        crate::avatar::is_avatar_extension(crate::text::ascii_lowered(extension))
            <==> spells_an_extension(extension),
{
    crate::text::lemma_split_without_separator(extension, '.');
    crate::text::lemma_split_join(stem, extension, '.');
    lemma_spelling_lowers(extension, "png"@);
    lemma_spelling_lowers(extension, "jpg"@);
    lemma_spelling_lowers(extension, "jpeg"@);
    lemma_spelling_lowers(extension, "gif"@);
    lemma_spelling_lowers(extension, "webp"@);
}

/// An upload may hold up to two mebibytes.
pub proof fn law_uploads_hold_two_mebibytes(upload: Upload)
    ensures
        upload.wf() <==> upload.data@.len() <= 2 * 1024 * 1024,
        crate::avatar::AVATAR_FIELD@ == "avatar"@,
{
}

/// The identifier of an avatar has thirty-six characters: hyphens after eight,
/// four, four and four digits, and hexadecimal digits in lower case elsewhere.
pub proof fn law_identifiers_have_their_form(text: Seq<char>, i: int)
    requires
        crate::avatar::is_uuid_text(text),
        0 <= i < 36,
    ensures
        text.len() == 8 + 1 + 4 + 1 + 4 + 1 + 4 + 1 + 12,
        text[i] == '-' <==> (i == 8 || i == 13 || i == 18 || i == 23),
        text[i] != '-' ==> '0' <= text[i] <= '9' || 'a' <= text[i] <= 'f',
{
}

/// An avatar is stored under its identifier, a dot and its extension, in the
/// directory of the avatars, and served under the same name.
pub proof fn law_avatars_are_stored_by_name(
    uuid: Seq<char>,
    extension: Seq<char>,
    name: Seq<char>,
    url: Seq<char>,
)
    ensures
        crate::avatar::avatar_name(uuid, extension) == uuid + seq!['.'] + extension,
        crate::avatar::avatar_path(name) == "uploads/avatars/"@ + name,
        crate::avatar::avatar_path(name) == crate::avatar::AVATAR_DIRECTORY@ + seq!['/'] + name,
        crate::avatar::avatar_url(name) == "/api/avatars/"@ + name,
        crate::avatar::path_of_url(Some("/api/avatars/"@ + name)) == Some(
            "uploads/avatars/"@ + name,
        ),
        (forall|rest: Seq<char>| url != #[trigger] ("/api/avatars/"@ + rest))
            ==> crate::avatar::path_of_url(Some(url)) is None,
        crate::avatar::path_of_url(None) is None,
{
    reveal_strlit(".");
    reveal_strlit("uploads/avatars");
    reveal_strlit("uploads/avatars/");
    assert("."@ =~= seq!['.']);
    assert("uploads/avatars"@ + seq!['/'] =~= "uploads/avatars/"@);
    crate::text_laws::law_prefixes_come_off("/api/avatars/"@, name, url);
}

/// A name is served exactly where it holds no separator of either kind and
/// nowhere two dots in a row.
pub proof fn law_names_are_served_without_detours(
    name: Seq<char>,
    front: Seq<char>,
    rest: Seq<char>,
)
    ensures
        !crate::avatar::is_servable(front + seq!['/'] + rest),
        !crate::avatar::is_servable(front + seq!['\\'] + rest),
        !crate::avatar::is_servable(front + seq!['.', '.'] + rest),
        !crate::avatar::is_servable(name) ==> name.contains('/') || name.contains('\\') || exists|
            i: int,
        | #![trigger name[i]] 0 <= i < name.len() - 1 && name[i] == '.' && name[i + 1] == '.',
{
    assert((front + seq!['/'] + rest)[front.len() as int] == '/');
    assert((front + seq!['\\'] + rest)[front.len() as int] == '\\');
    crate::text_laws::law_doubled_characters_stand_together(front, rest, '.', name, 0);
    if exists|i: int| crate::text::doubled_at(name, '.', i) {
        let i = choose|i: int| crate::text::doubled_at(name, '.', i);
        assert(name[i] == '.' && name[i + 1] == '.');
    }
}

} // verus!
