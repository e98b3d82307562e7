//! Plugins: local directories, each with a JSON manifest, run by the front
//! end in a sandboxed frame. This module holds what a manifest declares, the
//! rules that keep a plugin's files inside its own directory (ids, entry
//! files, relative paths) and the decisions of the plugin network bridge.

use vstd::prelude::*;
use crate::text::{
    chars_of, chars_start_with, contains_string, join_strings, joined, owned, starts_with,
    str_eq, string_of, to_uppercase, trim_chars, trim_spec, uppercase, views,
};
use crate::workspace::{absolute_path, components, err_empty_path, is_absolute_path, split_components};

verus! {

/// What a plugin's manifest file declares.
#[derive(Debug, Clone)]
pub struct PluginManifest {
    pub id: Option<String>,
    pub name: String,
    pub version: String,
    /// The entry file, relative to the plugin directory.
    pub entry: String,
    pub permissions: Vec<String>,
}

/// An installed plugin as the front end lists it.
#[derive(Debug, Clone)]
pub struct PluginInfo {
    pub id: String,
    pub name: String,
    pub version: String,
    pub entry: String,
    pub permissions: Vec<String>,
}

/// The answer to a plugin's network request.
#[derive(Debug)]
pub struct FetchResult {
    pub ok: bool,
    pub status: u16,
    pub body: String,
}

// ---------- ids and entry files ----------

/// The characters a plugin id may hold: ASCII letters and digits, `-` and
/// `_`.
pub open spec fn plugin_id_char(c: char) -> bool {
    crate::text::is_ascii_alnum(c) || c == '-' || c == '_'
}

/// The characters of `s` that may appear in a plugin id, in order.
pub open spec fn id_filter(s: Seq<char>) -> Seq<char>
    decreases s.len(),
{
    if s.len() == 0 {
        s
    } else if plugin_id_char(s.last()) {
        id_filter(s.drop_last()).push(s.last())
    } else {
        id_filter(s.drop_last())
    }
}

fn keep_id_chars(id: &str) -> (r: String)
    ensures
        r@ == id_filter(id@),
{
    let c = chars_of(id);
    let mut out: Vec<char> = Vec::new();
    let mut i: usize = 0;
    while i < c.len()
        invariant
            i <= c.len(),
            c@ == id@,
            out@ == id_filter(c@.take(i as int)),
        decreases c.len() - i,
    {
        assert(c@.take(i + 1).drop_last() == c@.take(i as int));
        assert(c@.take(i + 1).last() == c@[i as int]);
        let ch = c[i];
        if crate::text::char_is_ascii_alnum(ch) || ch == '-' || ch == '_' {
            out.push(ch);
        }
        i = i + 1;
    }
    assert(c@.take(c.len() as int) == c@);
    string_of(out.as_slice())
}

/// A plugin id made safe as a directory name: only ASCII letters and
/// digits, `-` and `_` remain, so no id can reach outside the plugin
/// directory.
pub fn sanitize_id(id: &str) -> (r: String)
    ensures
        r@ == id_filter(id@),
{
    keep_id_chars(id)
}

pub open spec fn err_bad_id() -> Seq<char> {
    "插件 id 无效"@
}

/// The directory name of a plugin: its sanitized id; an id of which nothing
/// is left is refused.
pub open spec fn plugin_dir_name_spec(id: Seq<char>) -> Result<Seq<char>, Seq<char>> {
    if id_filter(id).len() == 0 {
        Err(err_bad_id())
    } else {
        Ok(id_filter(id))
    }
}

/// The directory name of a plugin (see `plugin_dir_name_spec`).
pub fn plugin_dir_name(id: &str) -> (r: Result<String, String>)
    ensures
        match r {
            Ok(d) => plugin_dir_name_spec(id@) == Ok::<Seq<char>, Seq<char>>(d@),
            Err(e) => plugin_dir_name_spec(id@) == Err::<Seq<char>, Seq<char>>(e@),
        },
{
    let safe = sanitize_id(id);
    let c = chars_of(safe.as_str());
    if c.len() == 0 {
        return Err(owned("插件 id 无效"));
    }
    Ok(safe)
}

/// `s` without its `/` and `\` characters.
pub open spec fn drop_slashes(s: Seq<char>) -> Seq<char>
    decreases s.len(),
{
    if s.len() == 0 {
        s
    } else if s.last() == '/' || s.last() == '\\' {
        drop_slashes(s.drop_last())
    } else {
        drop_slashes(s.drop_last()).push(s.last())
    }
}

/// The file a plugin's frame loads: the manifest's entry without slashes,
/// trimmed and sanitized like an id (so it names a file directly inside
/// the plugin directory); `index.html` when nothing is left.
pub open spec fn entry_file_spec(entry: Seq<char>) -> Seq<char> {
    let e = id_filter(trim_spec(drop_slashes(entry)));
    if e.len() == 0 {
        "index.html"@
    } else {
        e
    }
}

fn remove_slashes(s: &[char]) -> (r: Vec<char>)
    ensures
        r@ == drop_slashes(s@),
{
    let mut out: Vec<char> = Vec::new();
    let mut i: usize = 0;
    while i < s.len()
        invariant
            i <= s.len(),
            out@ == drop_slashes(s@.take(i as int)),
        decreases s.len() - i,
    {
        assert(s@.take(i + 1).drop_last() == s@.take(i as int));
        assert(s@.take(i + 1).last() == s@[i as int]);
        if s[i] != '/' && s[i] != '\\' {
            out.push(s[i]);
        }
        i = i + 1;
    }
    assert(s@.take(s.len() as int) == s@);
    out
}

/// The entry file of a plugin (see `entry_file_spec`).
pub fn entry_file(entry: &str) -> (r: String)
    ensures
        r@ == entry_file_spec(entry@),
{
    let c = chars_of(entry);
    let stripped = remove_slashes(c.as_slice());
    let trimmed = trim_chars(stripped.as_slice());
    let t = string_of(trimmed.as_slice());
    let safe = keep_id_chars(t.as_str());
    let sc = chars_of(safe.as_str());
    if sc.len() == 0 {
        owned("index.html")
    } else {
        safe
    }
}

/// A listed plugin: what its manifest declares, under the manifest's id or,
/// without one, the name of its directory.
pub fn plugin_info(manifest: PluginManifest, dir_name: String) -> (r: PluginInfo)
    ensures
        r.id@ == (match manifest.id {
            Some(i) => i@,
            None => dir_name@,
        }),
        r.name == manifest.name,
        r.version == manifest.version,
        r.entry == manifest.entry,
        r.permissions == manifest.permissions,
{
    let id = match manifest.id {
        Some(i) => i,
        None => dir_name,
    };
    PluginInfo {
        id,
        name: manifest.name,
        version: manifest.version,
        entry: manifest.entry,
        permissions: manifest.permissions,
    }
}

/// An installed plugin: the manifest's id or, without one, the name of the
/// directory that held the manifest, sanitized; refused when nothing of it
/// is left.
pub fn installed_info(manifest: PluginManifest, root_name: String) -> (r: Result<PluginInfo, String>)
    ensures
        match r {
            Ok(info) => {
                &&& plugin_dir_name_spec(
                    match manifest.id {
                        Some(i) => i@,
                        None => root_name@,
                    },
                ) == Ok::<Seq<char>, Seq<char>>(info.id@)
                &&& info.name == manifest.name
                &&& info.version == manifest.version
                &&& info.entry == manifest.entry
                &&& info.permissions == manifest.permissions
            },
            Err(e) => plugin_dir_name_spec(
                match manifest.id {
                    Some(i) => i@,
                    None => root_name@,
                },
            ) == Err::<Seq<char>, Seq<char>>(e@),
        },
{
    let id = match manifest.id {
        Some(i) => i,
        None => root_name,
    };
    match plugin_dir_name(id.as_str()) {
        Ok(safe) => Ok(
            PluginInfo {
                id: safe,
                name: manifest.name,
                version: manifest.version,
                entry: manifest.entry,
                permissions: manifest.permissions,
            },
        ),
        Err(e) => Err(e),
    }
}

// ---------- plugin workspace paths ----------

pub open spec fn err_plugin_absolute() -> Seq<char> {
    "插件文件路径不允许绝对路径"@
}

pub open spec fn err_plugin_escape() -> Seq<char> {
    "插件文件路径不允许越界访问"@
}

/// Whether a path begins with a `.` component (`.` alone or `./...`): path
/// normalization keeps that one and drops the other `.` components.
pub open spec fn leading_cur_dir(rel: Seq<char>) -> bool {
    rel == seq!['.'] || starts_with(rel, seq!['.', '/']) || starts_with(rel, seq!['.', '\\'])
}

/// A path inside a plugin's workspace: absolute paths and `..` refused;
/// empty and `.` components dropped but for a leading `.`; something must be
/// left. The result is the components joined with `/`.
pub open spec fn plugin_rel_spec(rel: Seq<char>) -> Result<Seq<char>, Seq<char>> {
    if absolute_path(rel) {
        Err(err_plugin_absolute())
    } else {
        let cs = components(rel);
        let kept = if leading_cur_dir(rel) {
            seq![seq!['.']] + cs
        } else {
            cs
        };
        if cs.contains(seq!['.', '.']) {
            Err(err_plugin_escape())
        } else if kept.len() == 0 {
            Err(err_empty_path())
        } else {
            Ok(joined(kept, seq!['/']))
        }
    }
}

/// Checks a path inside a plugin's workspace (see `plugin_rel_spec`).
pub fn plugin_rel_path(rel: &str) -> (r: Result<String, String>)
    ensures
        match r {
            Ok(p) => plugin_rel_spec(rel@) == Ok::<Seq<char>, Seq<char>>(p@),
            Err(e) => plugin_rel_spec(rel@) == Err::<Seq<char>, Seq<char>>(e@),
        },
{
    let c = chars_of(rel);
    if is_absolute_path(c.as_slice()) {
        return Err(owned("插件文件路径不允许绝对路径"));
    }
    let parts = split_components(c.as_slice());
    let dd = vec!['.', '.'];
    assert(dd@ == seq!['.', '.']);
    if contains_string(&parts, dd.as_slice()) {
        return Err(owned("插件文件路径不允许越界访问"));
    }
    let lead = (c.len() == 1 && c[0] == '.') || (c.len() >= 2 && c[0] == '.' && (c[1] == '/' || c[1] == '\\'));
    proof {
        if c@.len() >= 2 && c@[0] == '.' && c@[1] == '/' {
            assert(c@.take(2) =~= seq!['.', '/']);
        }
        if c@.len() >= 2 && c@[0] == '.' && c@[1] == '\\' {
            assert(c@.take(2) =~= seq!['.', '\\']);
        }
        if starts_with(c@, seq!['.', '/']) {
            assert(c@.take(2)[0] == '.' && c@.take(2)[1] == '/');
        }
        if starts_with(c@, seq!['.', '\\']) {
            assert(c@.take(2)[0] == '.' && c@.take(2)[1] == '\\');
        }
        if c@.len() == 1 && c@[0] == '.' {
            assert(c@ =~= seq!['.']);
        }
    }
    assert(lead == leading_cur_dir(rel@));
    let mut kept = parts;
    if lead {
        let dot = vec!['.'];
        let d = string_of(dot.as_slice());
        assert(d@ =~= seq!['.']);
        let ghost before = kept@;
        kept.insert(0, d);
        assert(views(kept@) =~= seq![seq!['.']] + views(before)) by {
            assert(kept@[0]@ == seq!['.']);
            assert forall|k: int| 1 <= k < kept@.len() implies kept@[k] == before[k - 1] by {}
        }
    }
    if kept.len() == 0 {
        return Err(owned("路径为空"));
    }
    let sl = vec!['/'];
    let sep = string_of(sl.as_slice());
    assert(sep@ == seq!['/']);
    Ok(join_strings(&kept, sep.as_str()))
}

// ---------- network bridge ----------

/// The HTTP method of a plugin's request.
#[derive(Clone, Copy, Debug, PartialEq, Eq)]
pub enum FetchMethod {
    Get,
    Post,
    Put,
    Delete,
}

/// The method a plugin's request is sent with: the uppercase of the method
/// it names when that is `POST`, `PUT` or `DELETE`; `GET` otherwise.
pub open spec fn fetch_method_spec(method: Seq<char>) -> FetchMethod {
    let u = uppercase(method);
    if u == "POST"@ {
        FetchMethod::Post
    } else if u == "PUT"@ {
        FetchMethod::Put
    } else if u == "DELETE"@ {
        FetchMethod::Delete
    } else {
        FetchMethod::Get
    }
}

/// The method of a plugin's request (see `fetch_method_spec`).
pub fn fetch_method(method: &str) -> (r: FetchMethod)
    ensures
        r == fetch_method_spec(method@),
{
    let u = to_uppercase(method);
    if str_eq(u.as_str(), "POST") {
        FetchMethod::Post
    } else if str_eq(u.as_str(), "PUT") {
        FetchMethod::Put
    } else if str_eq(u.as_str(), "DELETE") {
        FetchMethod::Delete
    } else {
        FetchMethod::Get
    }
}

/// Whether a plugin may request a URL: only `http://` and `https://`.
pub open spec fn fetch_url_allowed(url: Seq<char>) -> bool {
    starts_with(url, "http://"@) || starts_with(url, "https://"@)
}

pub open spec fn err_scheme() -> Seq<char> {
    "仅支持 http/https 请求"@
}

/// Refuses a plugin request to anything but an `http`/`https` URL.
pub fn check_fetch_url(url: &str) -> (r: Result<(), String>)
    ensures
        r is Ok <==> fetch_url_allowed(url@),
        r matches Err(e) ==> e@ == err_scheme(),
{
    let c = chars_of(url);
    let http = chars_of("http://");
    let https = chars_of("https://");
    if chars_start_with(c.as_slice(), http.as_slice()) || chars_start_with(c.as_slice(), https.as_slice()) {
        Ok(())
    } else {
        Err(owned("仅支持 http/https 请求"))
    }
}

/// The answer handed to a plugin: `ok` when the status is below 400.
pub fn fetch_result(status: u16, body: String) -> (r: FetchResult)
    ensures
        r.ok == (status < 400),
        r.status == status,
        r.body == body,
{
    FetchResult { ok: status < 400, status, body }
}

} // verus!
