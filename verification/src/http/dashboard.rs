//! The dashboard document and its assets: what is served for a path, and from where.

use crate::http::compress::{
    content_etag, content_reply, etag_from_fingerprint, etag_matches, etag_of, not_modified,
    optional_lists, optional_view, serve_content, serve_not_modified, CompressedAsset,
};
use crate::http::reply::{Reply, ReplyView};
use crate::text::{
    after_last, begins_with, decimal, last_place, push_wide_decimal, same_text, split,
    split_text, starts_with, texts, trim_leading, without_leading,
};
use vstd::prelude::*;
use vstd::utf8::encode_utf8;

verus! {

pub const HTML_CONTENT_TYPE: &'static str = "text/html; charset=utf-8";

pub const TEXT_PLAIN_CONTENT_TYPE: &'static str = "text/plain; charset=utf-8";

pub const SVG_CONTENT_TYPE: &'static str = "image/svg+xml; charset=utf-8";

pub const CSS_CONTENT_TYPE: &'static str = "text/css; charset=utf-8";

pub const JS_CONTENT_TYPE: &'static str = "text/javascript; charset=utf-8";

pub const JSON_CONTENT_TYPE: &'static str = "application/json; charset=utf-8";

pub const WOFF2_CONTENT_TYPE: &'static str = "font/woff2";

pub const PNG_CONTENT_TYPE: &'static str = "image/png";

pub const WEBP_CONTENT_TYPE: &'static str = "image/webp";

pub const ICO_CONTENT_TYPE: &'static str = "image/x-icon";

/// For an extension that is not in the table: opaque bytes.
pub const OCTET_STREAM_CONTENT_TYPE: &'static str = "application/octet-stream";

/// Strict policy for the dashboard: no external origins, no inline scripts or styles.
pub const CSP_HEADER: &'static str =
    "default-src 'none'; script-src 'self'; style-src 'self'; connect-src 'self'; img-src 'self'; font-src 'self';";

/// The extension of a file name: what follows its last dot.
pub open spec fn extension(name: Seq<char>) -> Seq<char> {
    if last_place(name, '.') < 0 {
        Seq::empty()
    } else {
        name.skip(last_place(name, '.') + 1)
    }
}

/// The content type of an extension.
pub open spec fn type_of_extension(extension: Seq<char>) -> Seq<char> {
    if extension == "js"@ || extension == "mjs"@ {
        JS_CONTENT_TYPE@
    } else if extension == "css"@ {
        CSS_CONTENT_TYPE@
    } else if extension == "svg"@ {
        SVG_CONTENT_TYPE@
    } else if extension == "html"@ {
        HTML_CONTENT_TYPE@
    } else if extension == "json"@ || extension == "map"@ {
        JSON_CONTENT_TYPE@
    } else if extension == "woff2"@ {
        WOFF2_CONTENT_TYPE@
    } else if extension == "png"@ {
        PNG_CONTENT_TYPE@
    } else if extension == "webp"@ {
        WEBP_CONTENT_TYPE@
    } else if extension == "ico"@ {
        ICO_CONTENT_TYPE@
    } else if extension == "txt"@ {
        TEXT_PLAIN_CONTENT_TYPE@
    } else {
        OCTET_STREAM_CONTENT_TYPE@
    }
}

/// Maps a file name to its content type by its extension. An unknown extension is opaque bytes,
/// not an error.
pub fn guess_content_type(filename: &str) -> (content_type: &'static str)
    ensures
        content_type@ == type_of_extension(extension(filename@)),
{
    let ext = after_last(filename, '.');
    let ext = ext.as_str();
    if same_text(ext, "js") || same_text(ext, "mjs") {
        JS_CONTENT_TYPE
    } else if same_text(ext, "css") {
        CSS_CONTENT_TYPE
    } else if same_text(ext, "svg") {
        SVG_CONTENT_TYPE
    } else if same_text(ext, "html") {
        HTML_CONTENT_TYPE
    } else if same_text(ext, "json") || same_text(ext, "map") {
        JSON_CONTENT_TYPE
    } else if same_text(ext, "woff2") {
        WOFF2_CONTENT_TYPE
    } else if same_text(ext, "png") {
        PNG_CONTENT_TYPE
    } else if same_text(ext, "webp") {
        WEBP_CONTENT_TYPE
    } else if same_text(ext, "ico") {
        ICO_CONTENT_TYPE
    } else if same_text(ext, "txt") {
        TEXT_PLAIN_CONTENT_TYPE
    } else {
        OCTET_STREAM_CONTENT_TYPE
    }
}

/// The scripts of the dashboard, from the root of their import graph to its entry point.
pub open spec fn module_order() -> Seq<Seq<char>> {
    seq![
        "js/core/const.js"@,
        "js/core/severity.js"@,
        "js/core/boot-target.js"@,
        "js/core/bus.js"@,
        "js/core/store.js"@,
        "js/core/api.js"@,
        "js/core/spin.js"@,
        "js/core/announce.js"@,
        "js/format/fmt.js"@,
        "js/ansi/ansi.js"@,
        "js/log/LineBuffer.js"@,
        "js/log/RowPool.js"@,
        "js/log/CapacityController.js"@,
        "js/log/ChunkRunner.js"@,
        "js/log/LogView.js"@,
        "js/host/shell.js"@,
        "js/host/metricRenderers.js"@,
        "js/host/canvas.js"@,
        "js/modals/modal.js"@,
        "js/modals/log-modal.js"@,
        "js/modals/detail-modal.js"@,
        "js/modals/confirm-modal.js"@,
        "js/shell/network.js"@,
        "js/shell/stats.js"@,
        "js/shell/table.js"@,
        "js/shell/controls.js"@,
        "js/shell/app.js"@,
        "js/logpage/logpage.js"@,
        "dashboard.js"@,
    ]
}

/// The views of some string slices.
pub open spec fn slice_views(names: Seq<&'static str>) -> Seq<Seq<char>> {
    names.map_values(|name: &'static str| name@)
}

/// The scripts of the dashboard, in order.
pub fn dashboard_js_module_order() -> (names: Vec<&'static str>)
    ensures
        slice_views(names@) == module_order(),
{
    let names: Vec<&'static str> = vec![
        "js/core/const.js",
        "js/core/severity.js",
        "js/core/boot-target.js",
        "js/core/bus.js",
        "js/core/store.js",
        "js/core/api.js",
        "js/core/spin.js",
        "js/core/announce.js",
        "js/format/fmt.js",
        "js/ansi/ansi.js",
        "js/log/LineBuffer.js",
        "js/log/RowPool.js",
        "js/log/CapacityController.js",
        "js/log/ChunkRunner.js",
        "js/log/LogView.js",
        "js/host/shell.js",
        "js/host/metricRenderers.js",
        "js/host/canvas.js",
        "js/modals/modal.js",
        "js/modals/log-modal.js",
        "js/modals/detail-modal.js",
        "js/modals/confirm-modal.js",
        "js/shell/network.js",
        "js/shell/stats.js",
        "js/shell/table.js",
        "js/shell/controls.js",
        "js/shell/app.js",
        "js/logpage/logpage.js",
        "dashboard.js",
    ];
    assert(slice_views(names@) =~= module_order());
    names
}

/// Where a name stands among the scripts of the dashboard.
fn module_index(name: &str) -> (found: Option<usize>)
    ensures
        match found {
            Some(i) => i < module_order().len() && module_order()[i as int] == name@
                && forall|j: int| 0 <= j < i ==> #[trigger] module_order()[j] != name@,
            None => !module_order().contains(name@),
        },
{
    let names = dashboard_js_module_order();
    let mut i: usize = 0;
    while i < names.len()
        invariant
            i <= names.len(),
            slice_views(names@) == module_order(),
            forall|j: int| 0 <= j < i ==> #[trigger] module_order()[j] != name@,
        decreases names.len() - i,
    {
        assert(slice_views(names@)[i as int] == names@[i as int]@);
        if same_text(names[i], name) {
            return Some(i);
        }
        i = i + 1;
    }
    assert(names@.len() == slice_views(names@).len());
    None
}

/// An asset that is part of the program.
#[derive(Debug, Clone, Copy, PartialEq, Eq, Structural)]
pub enum EmbeddedAsset {
    /// A script, by its place in the module order.
    Module(usize),
    Stylesheet,
    Theme,
}

/// Where the bytes of a requested asset come from.
#[derive(Debug, PartialEq, Eq)]
pub enum AssetPlan {
    /// Nothing to serve.
    Missing { body: &'static str },
    /// A file of the web directory.
    FromDir { name: String, content_type: &'static str },
    /// A part of the program.
    Embedded { asset: EmbeddedAsset, content_type: &'static str },
}

/// Whether a plan is the one for a request that no route took.
pub open spec fn plans_asset(
    method: Seq<char>,
    path: Seq<char>,
    has_web_dir: bool,
    plan: AssetPlan,
) -> bool {
    let name = without_leading(path, '/');
    if method != "GET"@ && method != "HEAD"@ {
        plan matches AssetPlan::Missing { body } && body@ == "not found"@
    } else if has_web_dir {
        plan matches AssetPlan::FromDir { name: file, content_type } && file@ == name
            && content_type@ == type_of_extension(extension(name))
    } else if module_order().contains(name) {
        plan matches AssetPlan::Embedded { asset: EmbeddedAsset::Module(i), content_type } && i
            < module_order().len() && module_order()[i as int] == name && content_type@
            == JS_CONTENT_TYPE@
    } else if name == "dashboard.css"@ {
        plan matches AssetPlan::Embedded { asset: EmbeddedAsset::Stylesheet, content_type }
            && content_type@ == CSS_CONTENT_TYPE@
    } else if name == "theme.js"@ {
        plan matches AssetPlan::Embedded { asset: EmbeddedAsset::Theme, content_type }
            && content_type@ == JS_CONTENT_TYPE@
    } else {
        plan matches AssetPlan::Missing { body } && body@ == "asset not found"@
    }
}

/// Decides what to serve for a request that no route took. Only reading is answered; an unknown
/// path is not found whatever the method.
pub fn plan_asset(method: &str, path: &str, has_web_dir: bool) -> (plan: AssetPlan)
    ensures
        plans_asset(method@, path@, has_web_dir, plan),
{
    if !same_text(method, "GET") && !same_text(method, "HEAD") {
        return AssetPlan::Missing { body: "not found" };
    }
    let name = trim_leading(path, '/');
    if has_web_dir {
        let content_type = guess_content_type(name.as_str());
        return AssetPlan::FromDir { name, content_type };
    }
    if let Some(i) = module_index(name.as_str()) {
        return AssetPlan::Embedded {
            asset: EmbeddedAsset::Module(i),
            content_type: JS_CONTENT_TYPE,
        };
    }
    if same_text(name.as_str(), "dashboard.css") {
        AssetPlan::Embedded { asset: EmbeddedAsset::Stylesheet, content_type: CSS_CONTENT_TYPE }
    } else if same_text(name.as_str(), "theme.js") {
        AssetPlan::Embedded { asset: EmbeddedAsset::Theme, content_type: JS_CONTENT_TYPE }
    } else {
        AssetPlan::Missing { body: "asset not found" }
    }
}

/// Whether a relative path could leave the directory it is resolved in by its text alone: it is
/// absolute, or one of its components is the parent directory.
pub open spec fn escapes(path: Seq<char>) -> bool {
    begins_with(path, "/"@) || split(path, '/').contains(".."@)
}

/// Whether a path is refused before it is resolved.
pub fn is_escaping(path: &str) -> (yes: bool)
    ensures
        yes == escapes(path@),
{
    if starts_with(path, "/") {
        return true;
    }
    let parts = split_text(path, '/');
    let ghost pieces = split(path@, '/');
    let mut i: usize = 0;
    while i < parts.len()
        invariant
            i <= parts.len(),
            pieces == split(path@, '/'),
            texts(parts@) == pieces,
            !begins_with(path@, "/"@),
            forall|j: int| 0 <= j < i ==> pieces[j] != ".."@,
        decreases parts.len() - i,
    {
        assert(pieces[i as int] == parts@[i as int]@);
        if same_text(parts[i].as_str(), "..") {
            assert(pieces.contains(".."@));
            return true;
        }
        i = i + 1;
    }
    assert(parts@.len() == pieces.len());
    false
}

/// Whether a resolved path lies in a resolved directory: it is the directory, or what follows the
/// directory's own path begins a new component.
pub open spec fn lies_in(directory: Seq<u8>, target: Seq<u8>) -> bool {
    target == directory || (directory.len() < target.len() && target.take(directory.len() as int)
        == directory && (directory.len() > 0 && directory.last() == 47
        || target[directory.len() as int] == 47))
}

/// Whether a resolved path lies in a resolved directory, both as bytes.
pub fn is_contained(directory: &[u8], target: &[u8]) -> (yes: bool)
    ensures
        yes == lies_in(directory@, target@),
{
    if target.len() < directory.len() {
        return false;
    }
    let mut i: usize = 0;
    while i < directory.len()
        invariant
            i <= directory.len() <= target.len(),
            forall|j: int| 0 <= j < i ==> directory@[j] == target@[j],
        decreases directory.len() - i,
    {
        if directory[i] != target[i] {
            assert(target@.take(directory@.len() as int)[i as int] != directory@[i as int]);
            return false;
        }
        i = i + 1;
    }
    assert(target@.take(directory@.len() as int) =~= directory@);
    if target.len() == directory.len() {
        assert(target@ =~= directory@);
        return true;
    }
    (directory.len() > 0 && directory[directory.len() - 1] == 47) || target[directory.len()] == 47
}

/// The size of a file and its modification time, in nanoseconds since the epoch; 0 when unknown.
#[derive(Debug, Clone, Copy, PartialEq, Eq, Structural)]
pub struct FileStamp {
    pub len: u64,
    pub modified_nanos: u128,
}

/// The fingerprint of a file's state: its size and its modification time.
pub open spec fn stamp_text(stamp: FileStamp) -> Seq<char> {
    decimal(stamp.len as nat) + ":"@ + decimal(stamp.modified_nanos as nat)
}

/// The validator of a file, from its state alone.
pub fn on_disk_etag(stamp: FileStamp) -> (etag: String)
    ensures
        etag@ == etag_of(encode_utf8(stamp_text(stamp))),
{
    let mut fingerprint = crate::text::decimal_text(stamp.len);
    fingerprint.append(":");
    push_wide_decimal(&mut fingerprint, stamp.modified_nanos);
    etag_from_fingerprint(fingerprint.as_str().as_bytes())
}

/// What to do once the state of a requested file is known.
#[derive(Debug, PartialEq, Eq)]
pub enum FileStep {
    /// Answer without reading the file.
    Answer(Reply),
    /// Read the file, and answer with this validator where one is known.
    Read { etag: Option<String> },
}

/// The validator that a file's state gives.
pub open spec fn stamp_etag(stamp: Option<FileStamp>) -> Option<Seq<char>> {
    match stamp {
        Some(stamp) => Some(etag_of(encode_utf8(stamp_text(stamp)))),
        None => None,
    }
}

/// Decides, from the state of a requested file alone, whether it has to be read. `contained` says
/// that the path resolved to a file inside the web directory; whether it escaped or does not exist
/// is not told apart in the answer.
pub fn after_stat(contained: bool, stamp: Option<FileStamp>, if_none_match: Option<&str>) -> (step:
    FileStep)
    ensures
        if !contained {
            step matches FileStep::Answer(reply) && reply@ == ReplyView::text(
                404,
                "asset not found"@,
            )
        } else {
            match stamp_etag(stamp) {
                Some(etag) => if optional_lists(optional_view(if_none_match), etag) {
                    step matches FileStep::Answer(reply) && reply@ == not_modified(etag)
                } else {
                    step matches FileStep::Read { etag: Some(known) } && known@ == etag
                },
                None => step == (FileStep::Read { etag: None }),
            }
        },
{
    if !contained {
        return FileStep::Answer(Reply::text(404, "asset not found"));
    }
    match stamp {
        Some(stamp) => {
            let etag = on_disk_etag(stamp);
            if etag_matches(if_none_match, etag.as_str()) {
                FileStep::Answer(serve_not_modified(etag.as_str()))
            } else {
                FileStep::Read { etag: Some(etag) }
            }
        },
        None => FileStep::Read { etag: None },
    }
}

/// Answers with the contents of a file, or with the error that reading it gave. Without a known
/// validator the one of the contents is used.
pub fn after_read(
    etag: Option<String>,
    contents: Result<Vec<u8>, String>,
    content_type: &str,
    accept_encoding: Option<&str>,
) -> (reply: Reply)
    ensures
        match contents {
            Ok(bytes) => reply@ == content_reply(
                bytes@,
                content_type@,
                match etag {
                    Some(etag) => etag@,
                    None => etag_of(bytes@),
                },
                optional_view(accept_encoding),
            ),
            Err(error) => reply@ == ReplyView::text(500, "failed to read asset: "@ + error@),
        },
{
    match contents {
        Ok(bytes) => {
            let etag = match etag {
                Some(etag) => etag,
                None => content_etag(bytes.as_slice()),
            };
            serve_content(bytes, content_type, etag.as_str(), accept_encoding)
        },
        Err(error) => {
            let mut text = "failed to read asset: ".to_owned();
            text.append(error.as_str());
            Reply::text(500, text.as_str())
        },
    }
}

/// The reply for the dashboard document: the asset with a content security policy.
pub fn serve_dashboard(
    document: &CompressedAsset,
    accept_encoding: Option<&str>,
    if_none_match: Option<&str>,
) -> (reply: Reply)
    ensures
        reply@ == (if optional_lists(optional_view(if_none_match), etag_of(document.bytes())) {
            not_modified(etag_of(document.bytes()))
        } else {
            content_reply(
                document.bytes(),
                HTML_CONTENT_TYPE@,
                etag_of(document.bytes()),
                optional_view(accept_encoding),
            )
        }).with("content-security-policy"@, CSP_HEADER@),
{
    document.serve(accept_encoding, if_none_match, HTML_CONTENT_TYPE).with(
        "content-security-policy",
        CSP_HEADER,
    )
}

/// The reply for a log page: the dashboard document, for a service that is known by name.
pub fn serve_log_viewer(
    name: &str,
    known: bool,
    document: &CompressedAsset,
    accept_encoding: Option<&str>,
    if_none_match: Option<&str>,
) -> (reply: Reply)
    ensures
        if name@.len() == 0 {
            reply@ == ReplyView::text(404, "not found"@)
        } else if !known {
            reply@ == ReplyView::text(404, "service not found"@)
        } else {
            reply@ == (if optional_lists(optional_view(if_none_match), etag_of(document.bytes())) {
                not_modified(etag_of(document.bytes()))
            } else {
                content_reply(
                    document.bytes(),
                    HTML_CONTENT_TYPE@,
                    etag_of(document.bytes()),
                    optional_view(accept_encoding),
                )
            }).with("content-security-policy"@, CSP_HEADER@)
        },
{
    if name.is_empty() {
        Reply::text(404, "not found")
    } else if !known {
        Reply::text(404, "service not found")
    } else {
        serve_dashboard(document, accept_encoding, if_none_match)
    }
}

/// The reply for the icon, unless a web directory is served: then `favicon.svg` is read from it.
pub fn serve_favicon(embedded: &[u8], has_web_dir: bool) -> (reply: Option<Reply>)
    ensures
        if has_web_dir {
            reply is None
        } else {
            reply matches Some(reply) && reply@ == ReplyView::plain(200, embedded@).with(
                "content-type"@,
                SVG_CONTENT_TYPE@,
            )
        },
{
    if has_web_dir {
        None
    } else {
        Some(
            Reply::new(200, crate::http::compress::copy_bytes(embedded)).with(
                "content-type",
                SVG_CONTENT_TYPE,
            ),
        )
    }
}

/// A file that is served again unchanged is answered without a body: the validator that an answer
/// carried, sent back, is recognised as current while the file's state stays the same.
pub proof fn an_unchanged_file_is_not_sent_again(stamp: FileStamp)
    ensures
        optional_lists(
            Some(etag_of(encode_utf8(stamp_text(stamp)))),
            etag_of(encode_utf8(stamp_text(stamp))),
        ),
{
    crate::http::compress::lemma_an_etag_lists_itself(encode_utf8(stamp_text(stamp)));
}

/// The extension of a name is what stands behind its last dot, and nothing where it has none.
pub proof fn an_extension_is_behind_the_last_dot(base: Seq<char>, ending: Seq<char>)
    requires
        !ending.contains('.'),
    ensures
        extension(base + seq!['.'] + ending) == ending,
        extension(ending).len() == 0,
{
    let name = base + seq!['.'] + ending;
    crate::text::nothing_follows_the_last_place(name, '.');
    crate::text::nothing_follows_the_last_place(ending, '.');
    let at = last_place(name, '.');
    assert(name[base.len() as int] == '.');
    assert(name.contains('.'));
    if at > base.len() {
        assert(ending[at - base.len() - 1] == name[at]);
        assert(ending.contains('.'));
    }
    assert(at == base.len());
    assert(name.skip(at + 1) =~= ending);
}

/// Each kind of file is served as what it is, and an extension that is not known, or none, as
/// opaque bytes.
pub proof fn a_file_is_served_as_what_it_is(ending: Seq<char>)
    ensures
        ending == "js"@ || ending == "mjs"@ ==> type_of_extension(ending)
            == "text/javascript; charset=utf-8"@,
        ending == "css"@ ==> type_of_extension(ending) == "text/css; charset=utf-8"@,
        ending == "svg"@ ==> type_of_extension(ending) == "image/svg+xml; charset=utf-8"@,
        ending == "html"@ ==> type_of_extension(ending) == "text/html; charset=utf-8"@,
        ending == "json"@ || ending == "map"@ ==> type_of_extension(ending)
            == "application/json; charset=utf-8"@,
        ending == "woff2"@ ==> type_of_extension(ending) == "font/woff2"@,
        ending == "png"@ ==> type_of_extension(ending) == "image/png"@,
        ending == "webp"@ ==> type_of_extension(ending) == "image/webp"@,
        ending == "ico"@ ==> type_of_extension(ending) == "image/x-icon"@,
        ending == "txt"@ ==> type_of_extension(ending) == "text/plain; charset=utf-8"@,
        ending.len() == 0 || ending.len() > 5 ==> type_of_extension(ending)
            == "application/octet-stream"@,
{
    reveal_strlit("js");
    reveal_strlit("mjs");
    reveal_strlit("css");
    reveal_strlit("svg");
    reveal_strlit("html");
    reveal_strlit("json");
    reveal_strlit("map");
    reveal_strlit("woff2");
    reveal_strlit("png");
    reveal_strlit("webp");
    reveal_strlit("ico");
    reveal_strlit("txt");
    assert("js"@.len() == 2 && "mjs"@.len() == 3 && "css"@.len() == 3 && "svg"@.len() == 3
        && "html"@.len() == 4 && "json"@.len() == 4 && "map"@.len() == 3 && "woff2"@.len() == 5
        && "png"@.len() == 3 && "webp"@.len() == 4 && "ico"@.len() == 3 && "txt"@.len() == 3);
    assert("mjs"@[0] == 'm' && "mjs"@[1] == 'j' && "map"@[0] == 'm' && "map"@[1] == 'a');
    assert("css"@[0] == 'c' && "svg"@[0] == 's' && "png"@[0] == 'p' && "ico"@[0] == 'i'
        && "txt"@[0] == 't');
    assert("html"@[0] == 'h' && "json"@[0] == 'j' && "webp"@[0] == 'w');
}

/// Only reading is answered with an asset. From a web directory every name is, by the name without
/// its leading slashes; without one only what is part of the program, scripts as scripts and the
/// stylesheet as a stylesheet.
pub proof fn only_reading_is_answered_with_an_asset(
    method: Seq<char>,
    path: Seq<char>,
    has_web_dir: bool,
    plan: AssetPlan,
)
    requires
        plans_asset(method, path, has_web_dir, plan),
    ensures
        method != "GET"@ && method != "HEAD"@ ==> plan is Missing,
        plan is FromDir ==> has_web_dir,
        plan is Embedded ==> !has_web_dir,
        (method == "GET"@ || method == "HEAD"@) && has_web_dir ==> (plan matches AssetPlan::FromDir {
            name,
            content_type,
        } && name@ == without_leading(path, '/') && content_type@ == type_of_extension(
            extension(name@),
        )),
        plan matches AssetPlan::Embedded { asset, content_type } ==> (asset == EmbeddedAsset::Theme
            ==> without_leading(path, '/') == "theme.js"@ && content_type@
            == "text/javascript; charset=utf-8"@),
        plan matches AssetPlan::Embedded { asset, content_type } ==> (asset
            == EmbeddedAsset::Stylesheet ==> without_leading(path, '/') == "dashboard.css"@
            && content_type@ == "text/css; charset=utf-8"@),
        plan matches AssetPlan::Embedded { asset, content_type } ==> (
        asset matches EmbeddedAsset::Module(place) ==> place < module_order().len()
            && module_order()[place as int] == without_leading(path, '/') && content_type@
            == "text/javascript; charset=utf-8"@),
        (method == "GET"@ || method == "HEAD"@) && !has_web_dir && plan is Missing
            ==> !module_order().contains(without_leading(path, '/')) && without_leading(path, '/')
            != "dashboard.css"@ && without_leading(path, '/') != "theme.js"@,
{
}

/// A path escapes by the text of any of its components: by beginning at the root, or by naming the
/// parent directory anywhere. One that holds no two dots in a row and does not begin at the root
/// does not.
pub proof fn a_parent_anywhere_escapes(before: Seq<char>, after: Seq<char>, path: Seq<char>)
    ensures
        escapes(seq!['/'] + after),
        escapes(".."@),
        escapes(".."@ + seq!['/'] + after),
        escapes(before + seq!['/'] + ".."@),
        escapes(before + seq!['/'] + (".."@ + seq!['/'] + after)),
        path.len() > 0 && path[0] != '/' && (forall|i: int|
            0 <= i < path.len() - 1 && #[trigger] path[i] == '.' ==> path[i + 1] != '.')
            ==> !escapes(path),
{
    reveal_strlit("/");
    reveal_strlit("..");
    let up = ".."@;
    assert(!up.contains('/'));
    crate::text::a_separator_parts_the_pieces(up, after, '/');
    crate::text::a_separator_parts_the_pieces(before, up, '/');
    crate::text::a_separator_parts_the_pieces(before, up + seq!['/'] + after, '/');
    assert(split(up, '/') == seq![up]);
    assert(split(up, '/')[0] == up);
    assert(split(up + seq!['/'] + after, '/')[0] == up);
    let n = split(before, '/').len() as int;
    assert(split(before + seq!['/'] + up, '/')[n] == up);
    assert(split(before + seq!['/'] + (up + seq!['/'] + after), '/')[n] == up);
    let rooted = seq!['/'] + after;
    assert(rooted.take(1) =~= "/"@);
    if path.len() > 0 && path[0] != '/' && (forall|i: int|
        0 <= i < path.len() - 1 && #[trigger] path[i] == '.' ==> path[i + 1] != '.') {
        if begins_with(path, "/"@) {
            assert(path.take(1)[0] == path[0]);
        }
        if split(path, '/').contains(up) {
            let k = choose|k: int| 0 <= k < split(path, '/').len() && split(path, '/')[k] == up;
            let at = lemma_piece_in_place(path, '/', k);
            assert(path.subrange(at, at + 2)[0] == path[at]);
            assert(path.subrange(at, at + 2)[1] == path[at + 1]);
            assert(up[0] == '.' && up[1] == '.');
        }
    }
}

/// A piece of a text stands somewhere in it.
proof fn lemma_piece_in_place(s: Seq<char>, separator: char, k: int) -> (at: int)
    requires
        0 <= k < split(s, separator).len(),
    ensures
        0 <= at <= at + split(s, separator)[k].len() <= s.len(),
        s.subrange(at, at + split(s, separator)[k].len()) == split(s, separator)[k],
    decreases s.len(),
{
    crate::text::lemma_first_place(s, separator);
    let first = crate::text::first_place(s, separator);
    if first < s.len() {
        if k == 0 {
            assert(split(s, separator)[0] == s.take(first));
            assert(s.subrange(0, first) =~= s.take(first));
            0
        } else {
            let rest = s.skip(first + 1);
            let at = lemma_piece_in_place(rest, separator, k - 1);
            let piece = split(rest, separator)[k - 1];
            assert(split(s, separator)[k] == piece);
            assert(s.subrange(first + 1 + at, first + 1 + at + piece.len()) =~= rest.subrange(
                at,
                at + piece.len(),
            ));
            first + 1 + at
        }
    } else {
        assert(split(s, separator)[0] == s);
        assert(s.subrange(0, s.len() as int) =~= s);
        0
    }
}

/// A directory holds itself and what lies behind a separator after its path; one whose path only
/// begins alike holds nothing of it.
pub proof fn a_sibling_is_not_contained(directory: Seq<u8>, rest: Seq<u8>, target: Seq<u8>)
    requires
        directory.len() > 0,
        directory.last() != 47,
    ensures
        lies_in(directory, directory),
        lies_in(directory, directory + seq![47u8] + rest),
        rest.len() > 0 && rest[0] != 47 ==> !lies_in(directory, directory + rest),
        target.len() < directory.len() ==> !lies_in(directory, target),
        lies_in(directory, target) ==> target.len() >= directory.len() && target.take(
            directory.len() as int,
        ) == directory,
{
    let inner = directory + seq![47u8] + rest;
    assert(inner.take(directory.len() as int) =~= directory);
    assert(inner[directory.len() as int] == 47);
    let sibling = directory + rest;
    if rest.len() > 0 {
        assert(sibling[directory.len() as int] == rest[0]);
        assert(sibling.len() != directory.len());
    }
    assert(directory.take(directory.len() as int) =~= directory);
}

/// A file whose size or whose modification time has changed has another fingerprint.
pub proof fn a_changed_file_has_another_fingerprint(a: FileStamp, b: FileStamp)
    ensures
        stamp_text(a) == stamp_text(b) <==> a == b,
{
    reveal_strlit(":");
    let x = decimal(a.len as nat);
    let y = decimal(b.len as nat);
    let s = stamp_text(a);
    let t = stamp_text(b);
    crate::text::a_decimal_denotes_its_number(a.len as nat);
    crate::text::a_decimal_denotes_its_number(b.len as nat);
    if s == t {
        assert(s[x.len() as int] == ':');
        assert(t[y.len() as int] == ':');
        if x.len() < y.len() {
            assert(t[x.len() as int] == y[x.len() as int]);
            assert(crate::text::is_digit(y[x.len() as int]));
        }
        if y.len() < x.len() {
            assert(s[y.len() as int] == x[y.len() as int]);
            assert(crate::text::is_digit(x[y.len() as int]));
        }
        assert(s.take(x.len() as int) =~= x);
        assert(t.take(x.len() as int) =~= y);
        assert(s.skip(x.len() as int + 1) =~= decimal(a.modified_nanos as nat));
        assert(t.skip(x.len() as int + 1) =~= decimal(b.modified_nanos as nat));
        crate::text::decimals_tell_numbers_apart(a.len as nat, b.len as nat);
        crate::text::decimals_tell_numbers_apart(
            a.modified_nanos as nat,
            b.modified_nanos as nat,
        );
    }
}

/// The scripts are served in one order, each once, the entry point last.
pub proof fn the_entry_point_comes_last()
    ensures
        module_order().last() == "dashboard.js"@,
        module_order()[0] == "js/core/const.js"@,
        module_order().len() == 29,
{
}

/// What lies outside the web directory is not found, a current copy is not sent again, and any
/// other file is read, under the validator that its state gives.
pub proof fn a_file_is_read_only_where_it_has_to_be(
    contained: bool,
    stamp: Option<FileStamp>,
    if_none_match: Option<&str>,
    step: FileStep,
)
    requires
        call_ensures(after_stat, (contained, stamp, if_none_match), step),
    ensures
        !contained ==> (step matches FileStep::Answer(reply) && reply.status == 404),
        step matches FileStep::Read { etag } ==> contained && (etag is Some <==> stamp is Some),
        contained && if_none_match is None ==> step is Read,
        contained && stamp is None ==> step is Read,
        contained ==> (step matches FileStep::Answer(reply) ==> reply.status == 304
            && reply.body@.len() == 0),
{
}

/// What was read is sent with its content type under the known validator, or under that of its
/// contents; what could not be read is a failure that says why.
pub proof fn what_was_read_is_sent(
    etag: Option<String>,
    contents: Result<Vec<u8>, String>,
    content_type: &str,
    reply: Reply,
)
    requires
        call_ensures(after_read, (etag, contents, content_type, None), reply),
    ensures
        contents matches Ok(bytes) ==> reply@.status == 200 && reply@.body == bytes@
            && reply@.headers.contains(("content-type"@, content_type@)),
        contents matches Ok(bytes) ==> (etag matches Some(etag) ==> reply@.headers.contains(
            ("etag"@, etag@),
        )),
        contents matches Ok(bytes) ==> (etag is None ==> reply@.headers.contains(
            ("etag"@, etag_of(bytes@)),
        )),
        contents is Err ==> reply@.status == 500,
{
    if contents is Ok {
        assert(reply@.headers[0] == ("content-type"@, content_type@));
        assert(reply@.headers[1].0 == "etag"@);
    }
}

/// The dashboard document always carries the content security policy, whether it is sent or known
/// already; a log page is the same document, for a service that is known.
pub proof fn the_document_carries_its_policy(
    document: &CompressedAsset,
    accept_encoding: Option<&str>,
    if_none_match: Option<&str>,
    reply: Reply,
    name: &str,
    known: bool,
    page: Reply,
)
    requires
        call_ensures(serve_dashboard, (document, accept_encoding, if_none_match), reply),
        call_ensures(
            serve_log_viewer,
            (name, known, document, accept_encoding, if_none_match),
            page,
        ),
    ensures
        reply@.headers.last() == ("content-security-policy"@, CSP_HEADER@),
        reply@.status == 200 || reply@.status == 304,
        if_none_match is None ==> reply@.status == 200,
        accept_encoding is None && if_none_match is None ==> reply@.body == document.bytes(),
        name@.len() > 0 && known ==> page@ == reply@,
        name@.len() == 0 || !known ==> page@.status == 404,
{
}

/// The icon of the program is served as an image, unless a web directory has its own.
pub proof fn the_icon_is_an_image(embedded: &[u8], has_web_dir: bool, reply: Option<Reply>)
    requires
        call_ensures(serve_favicon, (embedded, has_web_dir), reply),
    ensures
        has_web_dir <==> reply is None,
        reply matches Some(reply) ==> reply@.status == 200 && reply@.body == embedded@
            && reply@.headers == seq![("content-type"@, "image/svg+xml; charset=utf-8"@)],
{
    if let Some(reply) = reply {
        assert(reply@.headers =~= seq![("content-type"@, "image/svg+xml; charset=utf-8"@)]);
    }
}

} // verus!
