//! Workspace colors: the `workbench.colorCustomizations` that the settings
//! of a `.code-workspace` file hold.
use vstd::prelude::*;
use crate::json::{
    lemma_get_other_after_insert, lemma_get_other_after_remove, lemma_member_index_same_keys,
    lemma_member_insert_keys, lemma_member_insert_twice,
    as_str, get_member, lemma_get_after_insert, lemma_get_after_remove,
    lemma_member_index_from, lemma_member_remove,
    lemma_member_remove_absent, lemma_members_model, lemma_members_model_ext, member_index,
    member_insert, member_position, member_remove, members_model, parsed_json, remove_member,
    set_member, Json, JsonModel,
};
use crate::jsonc::{read_workspace_json, strip_comments};
use crate::text::{chars_of, concat_str, owned, push_all, slice_range, starts_with, string_of};

verus! {

broadcast use vstd::string::group_string_axioms;

// ------------------------------------------------------------------- darken

/// The position of the first character of `s` at or after `i` that is not `'#'`.
pub open spec fn skip_hashes_from(s: Seq<char>, i: int) -> int
    decreases s.len() - i,
{
    if 0 <= i < s.len() && s[i] == '#' {
        skip_hashes_from(s, i + 1)
    } else {
        i
    }
}

/// `s` without its leading `'#'`s (`str::trim_start_matches('#')`).
pub open spec fn strip_hashes(s: Seq<char>) -> Seq<char> {
    s.subrange(skip_hashes_from(s, 0), s.len() as int)
}

/// The value of a hexadecimal digit byte, in either case.
pub open spec fn hex_digit(b: u8) -> Option<u8> {
    if 48 <= b <= 57 {
        Some((b - 48) as u8)
    } else if 97 <= b <= 102 {
        Some((b - 87) as u8)
    } else if 65 <= b <= 70 {
        Some((b - 55) as u8)
    } else {
        None
    }
}

/// `u8::from_str_radix(pair, 16).unwrap_or(0)` on the two bytes of `pair`: an
/// optional `+` and hex digits; anything else gives 0.
pub open spec fn hex_pair(b0: u8, b1: u8) -> u8 {
    if b0 == 43 {
        match hex_digit(b1) {
            Some(v) => v,
            None => 0,
        }
    } else {
        match (hex_digit(b0), hex_digit(b1)) {
            (Some(x), Some(y)) => (16 * x + y) as u8,
            _ => 0,
        }
    }
}

/// A channel darkened by about 20%: 8/10 of its value, rounded down.
pub open spec fn dim(v: u8) -> u8 {
    (v * 8 / 10) as u8
}

/// The lowercase hexadecimal digit of `n < 16`.
pub open spec fn hex_char(n: u8) -> char {
    if n < 10 {
        (n + 48) as char
    } else {
        (n + 87) as char
    }
}

/// `format!("{:02x}", v)`.
pub open spec fn two_hex(v: u8) -> Seq<char> {
    seq![hex_char(v / 16), hex_char(v % 16)]
}

/// The bytes of the color after its leading `'#'`s.
pub open spec fn color_bytes(color: Seq<char>) -> Seq<u8> {
    vstd::utf8::encode_utf8(strip_hashes(color))
}

/// `darken` slices a six-byte color at bytes 2 and 4; those must be
/// character boundaries (elsewhere Rust panics).
pub open spec fn darken_ok(color: Seq<char>) -> bool {
    let b = color_bytes(color);
    b.len() == 6 ==> !(0x80 <= b[2] <= 0xbf) && !(0x80 <= b[4] <= 0xbf)
}

/// A color darkened by about 20%: for six bytes after the leading `'#'`s,
/// `#rrggbb` with each channel scaled by 8/10 (0 for a channel that does not
/// parse); otherwise `#` and the color as given without its leading `'#'`s.
pub open spec fn darken_spec(color: Seq<char>) -> Seq<char> {
    let b = color_bytes(color);
    if b.len() != 6 {
        seq!['#'] + strip_hashes(color)
    } else {
        seq!['#'] + two_hex(dim(hex_pair(b[0], b[1]))) + two_hex(dim(hex_pair(b[2], b[3])))
            + two_hex(dim(hex_pair(b[4], b[5])))
    }
}

fn hex_digit_exec(b: u8) -> (r: Option<u8>)
    ensures
        r == hex_digit(b),
{
    if 48 <= b && b <= 57 {
        Some(b - 48)
    } else if 97 <= b && b <= 102 {
        Some(b - 87)
    } else if 65 <= b && b <= 70 {
        Some(b - 55)
    } else {
        None
    }
}

fn hex_pair_exec(b0: u8, b1: u8) -> (r: u8)
    ensures
        r == hex_pair(b0, b1),
{
    if b0 == 43 {
        match hex_digit_exec(b1) {
            Some(v) => v,
            None => 0,
        }
    } else {
        match (hex_digit_exec(b0), hex_digit_exec(b1)) {
            (Some(x), Some(y)) => 16 * x + y,
            _ => 0,
        }
    }
}

fn push_two_hex(out: &mut Vec<char>, v: u8)
    ensures
        final(out)@ == old(out)@ + two_hex(v),
{
    let hi = v / 16;
    let lo = v % 16;
    let c1 = if hi < 10 {
        (hi + 48) as char
    } else {
        (hi + 87) as char
    };
    let c2 = if lo < 10 {
        (lo + 48) as char
    } else {
        (lo + 87) as char
    };
    out.push(c1);
    out.push(c2);
    assert(out@ =~= old(out)@ + two_hex(v));
}

fn dim_exec(v: u8) -> (r: u8)
    ensures
        r == dim(v),
{
    let m: u16 = (v as u16) * 8;
    (m / 10) as u8
}

/// The characters of `hex` after its leading `'#'`s.
fn hash_stripped(hex: &str) -> (r: Vec<char>)
    ensures
        r@ == strip_hashes(hex@),
{
    let s = chars_of(hex);
    let mut a: usize = 0;
    while a < s.len() && s[a] == '#'
        invariant
            a <= s.len(),
            skip_hashes_from(s@, 0) == skip_hashes_from(s@, a as int),
        decreases s.len() - a,
    {
        a += 1;
    }
    slice_range(s.as_slice(), a, s.len())
}

/// Whether `darken` can take this color: where it has six bytes after its
/// leading `'#'`s, bytes 2 and 4 start characters (see `darken_ok`).
pub fn darken_safe(hex: &str) -> (r: bool)
    ensures
        r == darken_ok(hex@),
{
    let digits = hash_stripped(hex);
    let digits_str = string_of(digits.as_slice());
    let bytes = digits_str.as_str().as_bytes();
    if bytes.len() != 6 {
        true
    } else {
        !(0x80 <= bytes[2] && bytes[2] <= 0xbf) && !(0x80 <= bytes[4] && bytes[4] <= 0xbf)
    }
}

/// Darkens a hex color by about 20% (see `darken_spec`).
pub fn darken(hex: &str) -> (r: String)
    requires
        darken_ok(hex@),
    ensures
        r@ == darken_spec(hex@),
{
    let digits = hash_stripped(hex);
    let digits_str = string_of(digits.as_slice());
    let bytes = digits_str.as_str().as_bytes();
    let mut out: Vec<char> = Vec::new();
    out.push('#');
    if bytes.len() != 6 {
        push_all(&mut out, digits.as_slice());
    } else {
        push_two_hex(&mut out, dim_exec(hex_pair_exec(bytes[0], bytes[1])));
        push_two_hex(&mut out, dim_exec(hex_pair_exec(bytes[2], bytes[3])));
        push_two_hex(&mut out, dim_exec(hex_pair_exec(bytes[4], bytes[5])));
    }
    assert(out@ =~= darken_spec(hex@));
    string_of(out.as_slice())
}


// ------------------------------------------------------------------- reading

/// The key of the color customizations in a workspace's settings.
pub open spec fn wb_key() -> Seq<char> {
    "workbench.colorCustomizations"@
}

/// The text held by the member `key` of `c`, when it is a string.
pub open spec fn str_member(c: JsonModel, key: Seq<char>) -> Option<Seq<char>> {
    match c.get(key) {
        Some(v) => v.as_str(),
        None => None,
    }
}

/// The first member value from position `i` on that is a string starting with `'#'`.
pub open spec fn first_hash_color_from(ms: Seq<(Seq<char>, JsonModel)>, i: int) -> Option<Seq<char>>
    decreases ms.len() - i,
{
    if i < 0 || i >= ms.len() {
        None
    } else if ms[i].1 is Str && starts_with(ms[i].1->Str_0, "#"@) {
        Some(ms[i].1->Str_0)
    } else {
        first_hash_color_from(ms, i + 1)
    }
}

/// The color that a set of color customizations stands for: the title bar's,
/// else the activity bar's, else the status bar's background, else the first
/// member value that is a string starting with `'#'`.
pub open spec fn customization_color(c: JsonModel) -> Option<Seq<char>> {
    if str_member(c, "titleBar.activeBackground"@) is Some {
        str_member(c, "titleBar.activeBackground"@)
    } else if str_member(c, "activityBar.background"@) is Some {
        str_member(c, "activityBar.background"@)
    } else if str_member(c, "statusBar.background"@) is Some {
        str_member(c, "statusBar.background"@)
    } else {
        match c {
            JsonModel::Object(ms) => first_hash_color_from(ms, 0),
            _ => None,
        }
    }
}

/// The color of a workspace document: that of `settings` →
/// `workbench.colorCustomizations`, when both are there.
pub open spec fn settings_color(ws: JsonModel) -> Option<Seq<char>> {
    match ws.get("settings"@) {
        Some(settings) => match settings.get(wb_key()) {
            Some(c) => customization_color(c),
            None => None,
        },
        None => None,
    }
}

/// The color of a `.code-workspace` file with the given content.
pub open spec fn workspace_color(content: Seq<char>) -> Option<Seq<char>> {
    match parsed_json(strip_comments(content)) {
        Ok(ws) => settings_color(ws),
        Err(_) => None,
    }
}

/// The text of the member `key` of `c`, when it is a string.
fn str_member_exec(c: &Json, key: &str) -> (r: Option<String>)
    ensures
        match r {
            Some(s) => str_member(c.model(), key@) == Some(s@),
            None => str_member(c.model(), key@) is None,
        },
{
    match get_member(c, key) {
        Some(v) => match as_str(v) {
            Some(s) => Some(s.clone()),
            None => None,
        },
        None => None,
    }
}

/// The color that a set of color customizations stands for (see
/// `customization_color`).
pub fn extract_color_from_customizations(customizations: &Json) -> (r: Option<String>)
    ensures
        match r {
            Some(s) => customization_color(customizations.model()) == Some(s@),
            None => customization_color(customizations.model()) is None,
        },
{
    if let Some(c) = str_member_exec(customizations, "titleBar.activeBackground") {
        return Some(c);
    }
    if let Some(c) = str_member_exec(customizations, "activityBar.background") {
        return Some(c);
    }
    if let Some(c) = str_member_exec(customizations, "statusBar.background") {
        return Some(c);
    }
    match customizations {
        Json::Object(ms) => {
            proof {
                lemma_members_model(ms@);
            }
            let hash: [char; 1] = ['#'];
            proof {
                reveal_strlit("#");
                assert(hash@ == "#"@);
            }
            let mut i: usize = 0;
            while i < ms.len()
                invariant
                    i <= ms.len(),
                    hash@ == "#"@,
                    customizations.model() == JsonModel::Object(members_model(ms@)),
                    str_member(customizations.model(), "titleBar.activeBackground"@) is None,
                    str_member(customizations.model(), "activityBar.background"@) is None,
                    str_member(customizations.model(), "statusBar.background"@) is None,
                    members_model(ms@).len() == ms@.len(),
                    forall|j: int|
                        0 <= j < ms@.len() ==> #[trigger] members_model(ms@)[j] == (
                            ms@[j].0@,
                            ms@[j].1.model(),
                        ),
                    first_hash_color_from(members_model(ms@), 0) == first_hash_color_from(
                        members_model(ms@),
                        i as int,
                    ),
                decreases ms.len() - i,
            {
                assert(members_model(ms@)[i as int].1 == ms@[i as int].1.model());
                if let Json::Str(v) = &ms[i].1 {
                    assert(ms@[i as int].1.model() == JsonModel::Str(v@));
                    let vc = chars_of(v.as_str());
                    if crate::text::starts_with_chars(vc.as_slice(), hash.as_slice()) {
                        return Some(v.clone());
                    }
                } else {
                    assert(!(ms@[i as int].1.model() is Str));
                }
                i += 1;
            }
            None
        },
        _ => None,
    }
}

/// The color of a `.code-workspace` file, from its content: the customized
/// color of its settings, if it parses and has one.
pub fn read_workspace_color(content: &str) -> (r: Option<String>)
    ensures
        match r {
            Some(s) => workspace_color(content@) == Some(s@),
            None => workspace_color(content@) is None,
        },
{
    let json = match read_workspace_json(content) {
        Some(j) => j,
        None => return None,
    };
    let settings = match get_member(&json, "settings") {
        Some(s) => s,
        None => return None,
    };
    let wb = match get_member(settings, "workbench.colorCustomizations") {
        Some(w) => w,
        None => return None,
    };
    extract_color_from_customizations(wb)
}


// ------------------------------------------------------------------- writing

/// The color customizations written for `color`, in the order they are set.
pub open spec fn color_overrides(color: Seq<char>) -> Seq<(Seq<char>, JsonModel)> {
    let c = JsonModel::Str(color);
    let white = JsonModel::Str("#ffffff"@);
    let faded = JsonModel::Str("#ffffff99"@);
    seq![
        ("titleBar.activeBackground"@, c),
        ("titleBar.activeForeground"@, white),
        ("titleBar.inactiveBackground"@, JsonModel::Str(color + "99"@)),
        ("titleBar.inactiveForeground"@, faded),
        ("activityBar.activeBackground"@, c),
        ("activityBar.background"@, c),
        ("activityBar.foreground"@, white),
        ("activityBar.inactiveForeground"@, faded),
        ("activityBarBadge.background"@, c),
        ("activityBarBadge.foreground"@, white),
        ("statusBar.background"@, c),
        ("statusBar.foreground"@, white),
        ("statusBar.debuggingBackground"@, c),
        ("statusBar.debuggingForeground"@, white),
        ("statusBarItem.hoverBackground"@, JsonModel::Str(darken_spec(color))),
        ("statusBarItem.remoteBackground"@, c),
        ("statusBarItem.remoteForeground"@, white),
        ("sash.hoverBorder"@, c),
        ("commandCenter.border"@, faded),
        ("commandCenter.foreground"@, white),
    ]
}

/// Settings after `write_full_color_overrides`: `peacock.color` gone and
/// `workbench.colorCustomizations` set to exactly the overrides for `color`.
pub open spec fn color_settings(settings: JsonModel, color: Seq<char>) -> JsonModel {
    let base = match settings {
        JsonModel::Object(ms) => ms,
        _ => Seq::empty(),
    };
    JsonModel::Object(
        member_insert(
            member_remove(base, "peacock.color"@),
            wb_key(),
            JsonModel::Object(color_overrides(color)),
        ),
    )
}

/// A value that keyed access can fill (`null` becomes an object); keyed
/// access to anything else panics.
pub open spec fn can_hold_members(v: JsonModel) -> bool {
    v is Null || v is Object
}

/// A workspace document whose color can be set without a panic.
pub open spec fn can_set_color(ws: JsonModel) -> bool {
    &&& can_hold_members(ws)
    &&& match ws.get("settings"@) {
        Some(s) => can_hold_members(s),
        None => true,
    }
}

/// A workspace document after `set_workspace_color`: its settings (`{}`
/// where it had none) with the color overrides written in.
pub open spec fn with_color(ws: JsonModel, color: Seq<char>) -> JsonModel {
    let ms = match ws {
        JsonModel::Object(ms) => ms,
        _ => Seq::empty(),
    };
    let settings = match ws.get("settings"@) {
        Some(s) => s,
        None => JsonModel::Object(Seq::empty()),
    };
    JsonModel::Object(member_insert(ms, "settings"@, color_settings(settings, color)))
}

/// A workspace document after `remove_workspace_color`: where its settings
/// are an object, without `peacock.color` and `workbench.colorCustomizations`.
pub open spec fn without_color(ws: JsonModel) -> JsonModel {
    match ws {
        JsonModel::Object(ms) => match member_index(ms, "settings"@) {
            Some(i) => match ms[i].1 {
                JsonModel::Object(sm) => JsonModel::Object(
                    ms.update(
                        i,
                        (
                            ms[i].0,
                            JsonModel::Object(
                                member_remove(member_remove(sm, "peacock.color"@), wb_key()),
                            ),
                        ),
                    ),
                ),
                _ => ws,
            },
            None => ws,
        },
        _ => ws,
    }
}

fn override_member(key: &str, value: String) -> (m: (String, Json))
    ensures
        m.0@ == key@,
        m.1.model() == JsonModel::Str(value@),
{
    (owned(key), Json::Str(value))
}

/// The color customization members for `color`.
fn color_overrides_exec(color: &str) -> (v: Vec<(String, Json)>)
    requires
        darken_ok(color@),
    ensures
        members_model(v@) == color_overrides(color@),
{
    let mut v: Vec<(String, Json)> = Vec::new();
    v.push(override_member("titleBar.activeBackground", owned(color)));
    v.push(override_member("titleBar.activeForeground", owned("#ffffff")));
    v.push(override_member("titleBar.inactiveBackground", concat_str(color, "99")));
    v.push(override_member("titleBar.inactiveForeground", owned("#ffffff99")));
    v.push(override_member("activityBar.activeBackground", owned(color)));
    v.push(override_member("activityBar.background", owned(color)));
    v.push(override_member("activityBar.foreground", owned("#ffffff")));
    v.push(override_member("activityBar.inactiveForeground", owned("#ffffff99")));
    v.push(override_member("activityBarBadge.background", owned(color)));
    v.push(override_member("activityBarBadge.foreground", owned("#ffffff")));
    v.push(override_member("statusBar.background", owned(color)));
    v.push(override_member("statusBar.foreground", owned("#ffffff")));
    v.push(override_member("statusBar.debuggingBackground", owned(color)));
    v.push(override_member("statusBar.debuggingForeground", owned("#ffffff")));
    v.push(override_member("statusBarItem.hoverBackground", darken(color)));
    v.push(override_member("statusBarItem.remoteBackground", owned(color)));
    v.push(override_member("statusBarItem.remoteForeground", owned("#ffffff")));
    v.push(override_member("sash.hoverBorder", owned(color)));
    v.push(override_member("commandCenter.border", owned("#ffffff99")));
    v.push(override_member("commandCenter.foreground", owned("#ffffff")));
    proof {
        lemma_members_model_ext(v@, color_overrides(color@));
    }
    v
}

/// Writes the full set of VS Code color customizations for `color` into a
/// workspace's settings, and drops the old `peacock.color` key.
pub fn write_full_color_overrides(settings: &mut Json, color: &str)
    requires
        can_hold_members(old(settings).model()),
        darken_ok(color@),
    ensures
        final(settings).model() == color_settings(old(settings).model(), color@),
{
    let mut taken = Json::Null;
    std::mem::swap(&mut taken, settings);
    let mut base: Vec<(String, Json)> = match taken {
        Json::Object(ms) => ms,
        _ => Vec::new(),
    };
    remove_member(&mut base, "peacock.color");
    set_member(
        &mut base,
        owned("workbench.colorCustomizations"),
        Json::Object(color_overrides_exec(color)),
    );
    *settings = Json::Object(base);
}

/// Sets a workspace's color: creates its `settings` where it has none and
/// writes the color overrides there.
pub fn set_workspace_color(ws_json: &mut Json, color: &str)
    requires
        can_set_color(old(ws_json).model()),
        darken_ok(color@),
    ensures
        final(ws_json).model() == with_color(old(ws_json).model(), color@),
{
    let mut taken = Json::Null;
    std::mem::swap(&mut taken, ws_json);
    let mut ms: Vec<(String, Json)> = match taken {
        Json::Object(ms) => ms,
        _ => Vec::new(),
    };
    let ghost m0 = members_model(ms@);
    proof {
        lemma_members_model(ms@);
        lemma_member_index_from(m0, "settings"@, 0);
    }
    match member_position(&ms, "settings") {
        Some(i) => {
            let (k, mut settings) = ms.remove(i);
            write_full_color_overrides(&mut settings, color);
            let ghost sm = settings.model();
            ms.insert(i, (k, settings));
            proof {
                lemma_members_model_ext(ms@, member_insert(m0, "settings"@, sm));
            }
        },
        None => {
            let mut settings = Json::Object(Vec::new());
            write_full_color_overrides(&mut settings, color);
            set_member(&mut ms, owned("settings"), settings);
        },
    }
    *ws_json = Json::Object(ms);
}

/// Removes a workspace's color: where its settings are an object, drops
/// `peacock.color` and `workbench.colorCustomizations` from them. Returns
/// whether the document has settings at all (then it is written back).
pub fn remove_workspace_color(ws_json: &mut Json) -> (has_settings: bool)
    ensures
        has_settings == old(ws_json).model().get("settings"@) is Some,
        final(ws_json).model() == without_color(old(ws_json).model()),
{
    let mut taken = Json::Null;
    std::mem::swap(&mut taken, ws_json);
    match taken {
        Json::Object(mut ms) => {
            let ghost m0 = members_model(ms@);
            proof {
                lemma_members_model(ms@);
                lemma_member_index_from(m0, "settings"@, 0);
            }
            match member_position(&ms, "settings") {
                Some(i) => {
                    let (k, v) = ms.remove(i);
                    assert(v.model() == m0[i as int].1);
                    let nv = match v {
                        Json::Object(mut sm) => {
                            remove_member(&mut sm, "peacock.color");
                            remove_member(&mut sm, "workbench.colorCustomizations");
                            Json::Object(sm)
                        },
                        other => {
                            assert(m0.update(i as int, (m0[i as int].0, other.model())) =~= m0);
                            other
                        },
                    };
                    let ghost nm = nv.model();
                    ms.insert(i, (k, nv));
                    proof {
                        lemma_members_model_ext(ms@, m0.update(i as int, (m0[i as int].0, nm)));
                    }
                    *ws_json = Json::Object(ms);
                    true
                },
                None => {
                    *ws_json = Json::Object(ms);
                    false
                },
            }
        },
        other => {
            *ws_json = other;
            false
        },
    }
}


// ---------------------------------------------------------------------- laws

/// Reading a workspace's color right after setting it gives that color.
pub proof fn law_color_read_after_set(ws: JsonModel, color: Seq<char>)
    requires
        can_set_color(ws),
    ensures
        settings_color(with_color(ws, color)) == Some(color),
{
    let ms = match ws {
        JsonModel::Object(ms) => ms,
        _ => Seq::empty(),
    };
    let settings = match ws.get("settings"@) {
        Some(s) => s,
        None => JsonModel::Object(Seq::empty()),
    };
    let base = match settings {
        JsonModel::Object(bs) => bs,
        _ => Seq::empty(),
    };
    lemma_get_after_insert(ms, "settings"@, color_settings(settings, color));
    lemma_get_after_insert(
        member_remove(base, "peacock.color"@),
        wb_key(),
        JsonModel::Object(color_overrides(color)),
    );
    assert(member_index(color_overrides(color), "titleBar.activeBackground"@) == Some(0int));
}

/// After its color is removed, a workspace has no color.
pub proof fn law_no_color_after_remove(ws: JsonModel)
    ensures
        settings_color(without_color(ws)) is None,
{
    if let JsonModel::Object(ms) = ws {
        if let Some(i) = member_index(ms, "settings"@) {
            lemma_member_index_from(ms, "settings"@, 0);
            if let JsonModel::Object(sm) = ms[i].1 {
                let ns = member_remove(member_remove(sm, "peacock.color"@), wb_key());
                let ms2 = ms.update(i, (ms[i].0, JsonModel::Object(ns)));
                lemma_member_index_same_keys(ms, ms2, "settings"@, 0);
                lemma_get_after_remove(member_remove(sm, "peacock.color"@), wb_key());
            }
        }
    }
}

/// Writing the color overrides twice with the same color leaves settings as
/// writing them once: `peacock.color` stays gone and the customizations stay
/// the same.
pub proof fn law_color_settings_twice(settings: JsonModel, color: Seq<char>)
    ensures
        color_settings(color_settings(settings, color), color) == color_settings(settings, color),
{
    let base = match settings {
        JsonModel::Object(bs) => bs,
        _ => Seq::empty(),
    };
    let overrides = JsonModel::Object(color_overrides(color));
    let b0 = member_remove(base, "peacock.color"@);
    let b1 = member_insert(b0, wb_key(), overrides);
    let s1 = JsonModel::Object(b1);
    assert(s1 == color_settings(settings, color));
    lemma_member_remove(base, "peacock.color"@);
    lemma_member_insert_keys(b0, wb_key(), overrides);
    assert(wb_key() != "peacock.color"@) by {
        reveal_strlit("workbench.colorCustomizations");
        reveal_strlit("peacock.color");
        assert(wb_key().len() != "peacock.color"@.len());
    }
    assert forall|j: int| 0 <= j < b1.len() implies b1[j].0 != "peacock.color"@ by {
        assert(b1[j].0 == wb_key() || (j < b0.len() && b1[j].0 == b0[j].0));
    }
    lemma_member_remove_absent(b1, "peacock.color"@);
    lemma_member_insert_twice(b0, wb_key(), overrides);
}

/// Writing the color overrides drops `peacock.color`, sets
/// `workbench.colorCustomizations` to exactly the overrides for the color,
/// and keeps every other setting as it was.
pub proof fn law_color_settings_keep_others(settings: JsonModel, color: Seq<char>, k: Seq<char>)
    requires
        can_hold_members(settings),
        k != "peacock.color"@,
        k != wb_key(),
    ensures
        color_settings(settings, color).get(k) == settings.get(k),
        color_settings(settings, color).get("peacock.color"@) is None,
        color_settings(settings, color).get(wb_key()) == Some(JsonModel::Object(color_overrides(color))),
{
    let base = match settings {
        JsonModel::Object(bs) => bs,
        _ => Seq::empty(),
    };
    let overrides = JsonModel::Object(color_overrides(color));
    let b0 = member_remove(base, "peacock.color"@);
    assert(wb_key() != "peacock.color"@) by {
        reveal_strlit("workbench.colorCustomizations");
        reveal_strlit("peacock.color");
        assert(wb_key().len() != "peacock.color"@.len());
    }
    lemma_get_other_after_insert(b0, wb_key(), overrides, k);
    lemma_get_other_after_remove(base, "peacock.color"@, k);
    lemma_get_other_after_insert(b0, wb_key(), overrides, "peacock.color"@);
    lemma_get_after_remove(base, "peacock.color"@);
    lemma_get_after_insert(b0, wb_key(), overrides);
    assert(JsonModel::Object(base).get(k) == settings.get(k));
}

/// Setting the same color twice leaves a workspace as setting it once.
pub proof fn law_set_color_twice(ws: JsonModel, color: Seq<char>)
    requires
        can_set_color(ws),
    ensures
        can_set_color(with_color(ws, color)),
        with_color(with_color(ws, color), color) == with_color(ws, color),
{
    let ms = match ws {
        JsonModel::Object(ms) => ms,
        _ => Seq::empty(),
    };
    let settings = match ws.get("settings"@) {
        Some(s) => s,
        None => JsonModel::Object(Seq::empty()),
    };
    let base = match settings {
        JsonModel::Object(bs) => bs,
        _ => Seq::empty(),
    };
    let overrides = JsonModel::Object(color_overrides(color));
    let b0 = member_remove(base, "peacock.color"@);
    let b1 = member_insert(b0, wb_key(), overrides);
    let s1 = JsonModel::Object(b1);
    assert(s1 == color_settings(settings, color));
    lemma_get_after_insert(ms, "settings"@, s1);
    law_color_settings_twice(settings, color);
    assert(color_settings(s1, color) == s1);
    lemma_member_insert_twice(ms, "settings"@, s1);
}

/// Darkening takes about 20% off each channel: it keeps 8/10 of its value,
/// rounded down, so it never brightens it.
pub proof fn law_darken_never_brightens(channel: u8)
    ensures
        dim(channel) == channel * 8 / 10,
        dim(channel) <= channel,
{
}

} // verus!
