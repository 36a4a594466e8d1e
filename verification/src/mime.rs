//! The type label and icon of a directory entry, from the MIME type that
//! `mime_guess` guesses from the file name's extension.
use vstd::prelude::*;

use crate::text::str_equals;

verus! {

/// The (type, subtype) of the first MIME type that `mime_guess` associates
/// with the extension of `path`, or ("application", "octet-stream") when it
/// knows none (`from_path(path).first_or_octet_stream()`).
pub uninterp spec fn mime_of_path(path: Seq<char>) -> (Seq<char>, Seq<char>);

/// Calls `mime_guess::from_path(path).first_or_octet_stream()` and reads the
/// type and subtype of the `Mime` it gives. The contract claims they are
/// [`mime_of_path`] of the path.
#[verifier::external_body]
pub(crate) fn guess_mime(path: &str) -> (r: (String, String))
    ensures
        (r.0@, r.1@) == mime_of_path(path@),
{
    let m = mime_guess::from_path(path).first_or_octet_stream();
    (m.type_().as_str().to_string(), m.subtype().as_str().to_string())
}

/// The label of an entry's type in the listing (before translation).
pub open spec fn mime_label(is_dir: bool, mime: (Seq<char>, Seq<char>)) -> Seq<char> {
    if is_dir {
        "Folder"@
    } else if mime.0 == "image"@ {
        "Image"@
    } else if mime.0 == "video"@ {
        "Video"@
    } else if mime.0 == "audio"@ {
        "Audio"@
    } else if mime.0 == "text"@ {
        "Document"@
    } else if mime.0 == "application"@ {
        if mime.1 == "pdf"@ {
            "PDF Document"@
        } else if mime.1 == "zip"@ || mime.1 == "x-tar"@ || mime.1 == "gzip"@ {
            "Archive"@
        } else {
            "Application"@
        }
    } else {
        "File"@
    }
}

/// The symbolic icon name of an entry.
pub open spec fn mime_icon(is_dir: bool, mime: (Seq<char>, Seq<char>)) -> Seq<char> {
    if is_dir {
        "folder-symbolic"@
    } else if mime.0 == "image"@ {
        "image-x-generic-symbolic"@
    } else if mime.0 == "video"@ {
        "video-x-generic-symbolic"@
    } else if mime.0 == "audio"@ {
        "audio-x-generic-symbolic"@
    } else if mime.0 == "text"@ {
        if mime.1 == "html"@ || mime.1 == "xml"@ || mime.1 == "json"@ {
            "text-html-symbolic"@
        } else if mime.1 == "x-python"@ || mime.1 == "x-rust"@ || mime.1 == "javascript"@ {
            "text-x-script-symbolic"@
        } else {
            "text-x-generic-symbolic"@
        }
    } else if mime.0 == "application"@ {
        if mime.1 == "pdf"@ {
            "application-pdf-symbolic"@
        } else if mime.1 == "zip"@ || mime.1 == "x-tar"@ || mime.1 == "gzip"@ || mime.1
            == "x-7z-compressed"@ {
            "package-x-generic-symbolic"@
        } else {
            "application-x-executable-symbolic"@
        }
    } else {
        "text-x-generic-symbolic"@
    }
}

/// The type label of a file (not a directory) of MIME type
/// `mime_type/subtype`.
pub fn label_for_mime(mime_type: &str, subtype: &str) -> (s: &'static str)
    ensures
        s@ == mime_label(false, (mime_type@, subtype@)),
{
    let t = mime_type;
    let sub = subtype;
    if str_equals(t, "image") {
        "Image"
    } else if str_equals(t, "video") {
        "Video"
    } else if str_equals(t, "audio") {
        "Audio"
    } else if str_equals(t, "text") {
        "Document"
    } else if str_equals(t, "application") {
        if str_equals(sub, "pdf") {
            "PDF Document"
        } else if str_equals(sub, "zip") || str_equals(sub, "x-tar") || str_equals(sub, "gzip") {
            "Archive"
        } else {
            "Application"
        }
    } else {
        "File"
    }
}

/// The type label of an entry: "Folder" for directories, otherwise from the
/// MIME type guessed from its extension.
pub fn resolve_mime_str(path: &str, is_dir: bool) -> (s: &'static str)
    ensures
        s@ == mime_label(is_dir, mime_of_path(path@)),
{
    if is_dir {
        return "Folder";
    }
    let (t, sub) = guess_mime(path);
    label_for_mime(t.as_str(), sub.as_str())
}

/// The icon of a file (not a directory) of MIME type `mime_type/subtype`.
pub fn icon_for_mime(mime_type: &str, subtype: &str) -> (s: &'static str)
    ensures
        s@ == mime_icon(false, (mime_type@, subtype@)),
{
    let t = mime_type;
    let sub = subtype;
    if str_equals(t, "image") {
        "image-x-generic-symbolic"
    } else if str_equals(t, "video") {
        "video-x-generic-symbolic"
    } else if str_equals(t, "audio") {
        "audio-x-generic-symbolic"
    } else if str_equals(t, "text") {
        if str_equals(sub, "html") || str_equals(sub, "xml") || str_equals(sub, "json") {
            "text-html-symbolic"
        } else if str_equals(sub, "x-python") || str_equals(sub, "x-rust") || str_equals(
            sub,
            "javascript",
        ) {
            "text-x-script-symbolic"
        } else {
            "text-x-generic-symbolic"
        }
    } else if str_equals(t, "application") {
        if str_equals(sub, "pdf") {
            "application-pdf-symbolic"
        } else if str_equals(sub, "zip") || str_equals(sub, "x-tar") || str_equals(sub, "gzip")
            || str_equals(sub, "x-7z-compressed") {
            "package-x-generic-symbolic"
        } else {
            "application-x-executable-symbolic"
        }
    } else {
        "text-x-generic-symbolic"
    }
}


/// The icon of an entry: a folder for directories, otherwise from the MIME
/// type guessed from its extension.
pub fn resolve_icon(path: &str, is_dir: bool) -> (s: &'static str)
    ensures
        s@ == mime_icon(is_dir, mime_of_path(path@)),
{
    if is_dir {
        return "folder-symbolic";
    }
    let (t, sub) = guess_mime(path);
    icon_for_mime(t.as_str(), sub.as_str())
}


/// Zip, tar and gzip files are labelled "Archive"; and a file is labelled
/// "Archive" exactly when it gets the package icon and is not a 7z
/// archive (which keeps the "Application" label).
pub proof fn lemma_archive_label(mime: (Seq<char>, Seq<char>))
    ensures
        mime.0 == "application"@ && (mime.1 == "zip"@ || mime.1 == "x-tar"@ || mime.1 == "gzip"@)
            ==> mime_label(false, mime) == "Archive"@,
        (mime_label(false, mime) == "Archive"@) == (mime_icon(false, mime)
            == "package-x-generic-symbolic"@ && mime.1 != "x-7z-compressed"@),
{
    reveal_strlit("Archive");
    reveal_strlit("Image");
    reveal_strlit("Video");
    reveal_strlit("Audio");
    reveal_strlit("Document");
    reveal_strlit("PDF Document");
    reveal_strlit("Application");
    reveal_strlit("File");
    reveal_strlit("package-x-generic-symbolic");
    reveal_strlit("image-x-generic-symbolic");
    reveal_strlit("video-x-generic-symbolic");
    reveal_strlit("audio-x-generic-symbolic");
    reveal_strlit("text-html-symbolic");
    reveal_strlit("text-x-script-symbolic");
    reveal_strlit("text-x-generic-symbolic");
    reveal_strlit("application-pdf-symbolic");
    reveal_strlit("application-x-executable-symbolic");
    reveal_strlit("x-7z-compressed");
    reveal_strlit("zip");
    reveal_strlit("x-tar");
    reveal_strlit("gzip");
    reveal_strlit("pdf");
    reveal_strlit("image");
    reveal_strlit("video");
    reveal_strlit("audio");
    reveal_strlit("text");
    reveal_strlit("application");
    assert("zip"@[0] != "pdf"@[0]);
    assert("application"@.len() != "image"@.len());
    assert("application"@.len() != "video"@.len());
    assert("application"@.len() != "audio"@.len());
    assert("application"@.len() != "text"@.len());
    assert("x-tar"@.len() != "pdf"@.len());
    assert("gzip"@.len() != "pdf"@.len());
    assert("x-7z-compressed"@.len() != "pdf"@.len());
    assert("x-7z-compressed"@.len() != "zip"@.len());
    assert("x-7z-compressed"@.len() != "x-tar"@.len());
    assert("x-7z-compressed"@.len() != "gzip"@.len());
    assert("Archive"@.len() != "Application"@.len());
    assert("Archive"@.len() != "PDF Document"@.len());
    assert("Archive"@[0] != "Image"@[0]);
    assert("Archive"@[0] != "Video"@[0]);
    assert("Archive"@[0] != "Audio"@[1]);
    assert("Archive"@.len() != "Audio"@.len());
    assert("Archive"@.len() != "Document"@.len());
    assert("Archive"@.len() != "File"@.len());
    assert("package-x-generic-symbolic"@.len() != "application-x-executable-symbolic"@.len());
    assert("package-x-generic-symbolic"@.len() != "application-pdf-symbolic"@.len());
    assert("package-x-generic-symbolic"@[0] != "image-x-generic-symbolic"@[0]);
    assert("package-x-generic-symbolic"@[0] != "video-x-generic-symbolic"@[0]);
    assert("package-x-generic-symbolic"@[0] != "audio-x-generic-symbolic"@[0]);
    assert("package-x-generic-symbolic"@[0] != "text-html-symbolic"@[0]);
    assert("package-x-generic-symbolic"@[0] != "text-x-script-symbolic"@[0]);
    assert("package-x-generic-symbolic"@[0] != "text-x-generic-symbolic"@[0]);
}

} // verus!
