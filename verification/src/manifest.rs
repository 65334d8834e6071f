//! Settings resolver: the typed reading of the project manifest
//! (`project.json`).
//!
//! The manifest's top level must be an object with a required string
//! `name`, an optional string `version`, a required list of string stage
//! identifiers `stages`, and an optional `gameSettings` object whose fields
//! are each optional.  Any shape violation anywhere makes the whole read
//! fail — the resolver is best-effort and reports "no settings" rather
//! than an error, since a malformed manifest must never block startup.

use vstd::prelude::*;
use crate::json::{obj_get, json_view, json_view_fields, json_view_seq, lemma_view_seq, Json, JsonV, json_get, parse_json};

verus! {

/// The optional runtime settings block of a manifest.
pub struct GameSettings {
    pub title: Option<String>,
    pub window_width: Option<u32>,
    pub window_height: Option<u32>,
    pub resizable: Option<bool>,
    pub fullscreen: Option<bool>,
    pub default_theme_id: Option<String>,
    pub default_game_mode: Option<String>,
}

/// The mathematical value of a settings block.
pub struct GameSettingsV {
    pub title: Option<Seq<char>>,
    pub window_width: Option<u32>,
    pub window_height: Option<u32>,
    pub resizable: Option<bool>,
    pub fullscreen: Option<bool>,
    pub default_theme_id: Option<Seq<char>>,
    pub default_game_mode: Option<Seq<char>>,
}

/// The parsed project manifest.
pub struct ProjectMeta {
    pub name: String,
    pub version: Option<String>,
    pub stages: Vec<String>,
    pub game_settings: Option<GameSettings>,
}

/// The mathematical value of a manifest.
pub struct ProjectMetaV {
    pub name: Seq<char>,
    pub version: Option<Seq<char>>,
    pub stages: Seq<Seq<char>>,
    pub game_settings: Option<GameSettingsV>,
}

/// The characters an optional string holds.
pub open spec fn opt_str_view(s: Option<String>) -> Option<Seq<char>> {
    match s {
        Some(t) => Some(t@),
        None => None,
    }
}

impl View for GameSettings {
    type V = GameSettingsV;

    open spec fn view(&self) -> GameSettingsV {
        GameSettingsV {
            title: opt_str_view(self.title),
            window_width: self.window_width,
            window_height: self.window_height,
            resizable: self.resizable,
            fullscreen: self.fullscreen,
            default_theme_id: opt_str_view(self.default_theme_id),
            default_game_mode: opt_str_view(self.default_game_mode),
        }
    }
}

/// The settings an optional block holds.
pub open spec fn opt_settings_view(s: Option<GameSettings>) -> Option<GameSettingsV> {
    match s {
        Some(gs) => Some(gs@),
        None => None,
    }
}

impl View for ProjectMeta {
    type V = ProjectMetaV;

    open spec fn view(&self) -> ProjectMetaV {
        ProjectMetaV {
            name: self.name@,
            version: opt_str_view(self.version),
            stages: Seq::new(self.stages@.len(), |i: int| self.stages@[i]@),
            game_settings: opt_settings_view(self.game_settings),
        }
    }
}

/// An optional string field: absent and `null` both read as `None`; any
/// present value of another shape fails the whole manifest.
pub open spec fn dec_opt_string(fields: Seq<(Seq<char>, JsonV)>, key: Seq<char>) -> Option<
    Option<Seq<char>>,
> {
    match obj_get(fields, key) {
        None => Some(None),
        Some(JsonV::Null) => Some(None),
        Some(JsonV::Str(s)) => Some(Some(s)),
        Some(_) => None,
    }
}

/// An optional window measure: a number that is not an integer in
/// `[0, u32::MAX]` fails the whole manifest.
pub open spec fn dec_opt_u32(fields: Seq<(Seq<char>, JsonV)>, key: Seq<char>) -> Option<
    Option<u32>,
> {
    match obj_get(fields, key) {
        None => Some(None),
        Some(JsonV::Null) => Some(None),
        Some(JsonV::UInt(u)) => if u <= u32::MAX {
            Some(Some(u as u32))
        } else {
            None
        },
        Some(_) => None,
    }
}

/// An optional flag field.
pub open spec fn dec_opt_bool(fields: Seq<(Seq<char>, JsonV)>, key: Seq<char>) -> Option<
    Option<bool>,
> {
    match obj_get(fields, key) {
        None => Some(None),
        Some(JsonV::Null) => Some(None),
        Some(JsonV::Bool(b)) => Some(Some(b)),
        Some(_) => None,
    }
}

/// A list of stage identifiers: every element must be a string.
pub open spec fn dec_string_seq(a: Seq<JsonV>) -> Option<Seq<Seq<char>>>
    decreases a.len(),
{
    if a.len() == 0 {
        Some(Seq::empty())
    } else {
        match a[0] {
            JsonV::Str(s) => match dec_string_seq(a.drop_first()) {
                Some(r) => Some(seq![s] + r),
                None => None,
            },
            _ => None,
        }
    }
}

/// A string list reads back exactly when every element is a string, and
/// then element by element.
pub proof fn lemma_dec_string_seq(a: Seq<JsonV>)
    ensures
        (dec_string_seq(a) is Some) == (forall|i: int| 0 <= i < a.len() ==> a[i] is Str),
        dec_string_seq(a) matches Some(r) ==> r.len() == a.len() && (forall|i: int|
            0 <= i < a.len() ==> r[i] == (#[trigger] a[i])->Str_0),
    decreases a.len(),
{
    if a.len() > 0 {
        lemma_dec_string_seq(a.drop_first());
        if a[0] is Str {
            assert(forall|i: int| 0 < i < a.len() ==> a.drop_first()[i - 1] == a[i]);
            if dec_string_seq(a.drop_first()) is Some {
                let r = dec_string_seq(a)->0;
                let rr = dec_string_seq(a.drop_first())->0;
                assert(forall|i: int| 0 < i < a.len() ==> r[i] == rr[i - 1]);
            } else {
                let i = choose|i: int| 0 <= i < a.drop_first().len() && !(#[trigger] a.drop_first()[i] is Str);
                assert(a[i + 1] == a.drop_first()[i]);
            }
        }
    }
}

/// The settings block a JSON value holds, if it has the right shape.
pub open spec fn dec_settings(v: JsonV) -> Option<GameSettingsV> {
    match v {
        JsonV::Obj(fields) => {
            if {
                &&& dec_opt_string(fields, "title"@) is Some
                &&& dec_opt_u32(fields, "windowWidth"@) is Some
                &&& dec_opt_u32(fields, "windowHeight"@) is Some
                &&& dec_opt_bool(fields, "resizable"@) is Some
                &&& dec_opt_bool(fields, "fullscreen"@) is Some
                &&& dec_opt_string(fields, "defaultThemeId"@) is Some
                &&& dec_opt_string(fields, "defaultGameMode"@) is Some
            } {
                Some(
                    GameSettingsV {
                        title: dec_opt_string(fields, "title"@)->0,
                        window_width: dec_opt_u32(fields, "windowWidth"@)->0,
                        window_height: dec_opt_u32(fields, "windowHeight"@)->0,
                        resizable: dec_opt_bool(fields, "resizable"@)->0,
                        fullscreen: dec_opt_bool(fields, "fullscreen"@)->0,
                        default_theme_id: dec_opt_string(fields, "defaultThemeId"@)->0,
                        default_game_mode: dec_opt_string(fields, "defaultGameMode"@)->0,
                    },
                )
            } else {
                None
            }
        },
        _ => None,
    }
}

/// The manifest a JSON value holds, if it has the right shape: an object
/// with a string `name`, an optional string `version`, a list of string
/// `stages`, and an optional `gameSettings` block.  Unknown keys are
/// ignored.
pub open spec fn decode_project(v: JsonV) -> Option<ProjectMetaV> {
    match v {
        JsonV::Obj(fields) => {
            let name = obj_get(fields, "name"@);
            let stages = match obj_get(fields, "stages"@) {
                Some(JsonV::Arr(a)) => dec_string_seq(a),
                _ => None,
            };
            let settings = match obj_get(fields, "gameSettings"@) {
                None => Some(None),
                Some(JsonV::Null) => Some(None),
                Some(s) => match dec_settings(s) {
                    Some(gs) => Some(Some(gs)),
                    None => None,
                },
            };
            if name matches Some(JsonV::Str(_)) && dec_opt_string(fields, "version"@) is Some
                && stages is Some && settings is Some {
                Some(
                    ProjectMetaV {
                        name: name->0->Str_0,
                        version: dec_opt_string(fields, "version"@)->0,
                        stages: stages->0,
                        game_settings: settings->0,
                    },
                )
            } else {
                None
            }
        },
        _ => None,
    }
}

/// Reads an optional string field of an object.
fn get_opt_string(fields: &Vec<(String, Json)>, key: &str) -> (r: Option<Option<String>>)
    ensures
        match r {
            Some(v) => Some(opt_str_view(v)) == dec_opt_string(json_view_fields(fields@), key@),
            None => dec_opt_string(json_view_fields(fields@), key@) is None,
        },
{
    match json_get(fields, key) {
        None => Some(None),
        Some(Json::Null) => Some(None),
        Some(Json::Str(s)) => Some(Some(s.clone())),
        Some(_) => None,
    }
}

/// Reads an optional unsigned 32-bit field of an object.
fn get_opt_u32(fields: &Vec<(String, Json)>, key: &str) -> (r: Option<Option<u32>>)
    ensures
        match r {
            Some(v) => Some(v) == dec_opt_u32(json_view_fields(fields@), key@),
            None => dec_opt_u32(json_view_fields(fields@), key@) is None,
        },
{
    match json_get(fields, key) {
        None => Some(None),
        Some(Json::Null) => Some(None),
        Some(Json::UInt(u)) => {
            if *u <= 0xffff_ffffu64 {
                Some(Some(*u as u32))
            } else {
                None
            }
        },
        Some(_) => None,
    }
}

/// Reads an optional flag field of an object.
fn get_opt_bool(fields: &Vec<(String, Json)>, key: &str) -> (r: Option<Option<bool>>)
    ensures
        match r {
            Some(v) => Some(v) == dec_opt_bool(json_view_fields(fields@), key@),
            None => dec_opt_bool(json_view_fields(fields@), key@) is None,
        },
{
    match json_get(fields, key) {
        None => Some(None),
        Some(Json::Null) => Some(None),
        Some(Json::Bool(b)) => Some(Some(*b)),
        Some(_) => None,
    }
}

/// Reads a settings block out of a JSON value.
fn parse_settings(j: &Json) -> (r: Option<GameSettings>)
    ensures
        match r {
            Some(gs) => Some(gs@) == dec_settings(json_view(*j)),
            None => dec_settings(json_view(*j)) is None,
        },
{
    match j {
        Json::Obj(fields) => {
            let title = match get_opt_string(fields, "title") {
                Some(v) => v,
                None => { return None },
            };
            let window_width = match get_opt_u32(fields, "windowWidth") {
                Some(v) => v,
                None => { return None },
            };
            let window_height = match get_opt_u32(fields, "windowHeight") {
                Some(v) => v,
                None => { return None },
            };
            let resizable = match get_opt_bool(fields, "resizable") {
                Some(v) => v,
                None => { return None },
            };
            let fullscreen = match get_opt_bool(fields, "fullscreen") {
                Some(v) => v,
                None => { return None },
            };
            let default_theme_id = match get_opt_string(fields, "defaultThemeId") {
                Some(v) => v,
                None => { return None },
            };
            let default_game_mode = match get_opt_string(fields, "defaultGameMode") {
                Some(v) => v,
                None => { return None },
            };
            Some(
                GameSettings {
                    title,
                    window_width,
                    window_height,
                    resizable,
                    fullscreen,
                    default_theme_id,
                    default_game_mode,
                },
            )
        },
        _ => None,
    }
}

/// Reads the stage identifier list out of a JSON array.
fn parse_stages(a: &Vec<Json>) -> (r: Option<Vec<String>>)
    ensures
        match r {
            Some(v) => dec_string_seq(json_view_seq(a@)) == Some(
                Seq::new(v@.len(), |i: int| v@[i]@),
            ),
            None => dec_string_seq(json_view_seq(a@)) is None,
        },
{
    proof {
        lemma_view_seq(a@);
        lemma_dec_string_seq(json_view_seq(a@));
    }
    let mut out: Vec<String> = Vec::new();
    let mut i: usize = 0;
    while i < a.len()
        invariant
            i <= a@.len(),
            out@.len() == i,
            json_view_seq(a@).len() == a@.len(),
            forall|j: int| 0 <= j < a@.len() ==> json_view_seq(a@)[j] == json_view(#[trigger] a@[j]),
            forall|j: int| 0 <= j < i ==> (#[trigger] json_view_seq(a@)[j]) is Str,
            forall|j: int|
                0 <= j < i ==> (#[trigger] out@[j])@ == json_view_seq(a@)[j]->Str_0,
        decreases a@.len() - i,
    {
        match &a[i] {
            Json::Str(s) => {
                proof {
                    assert(a@[i as int] == Json::Str(*s));
                    assert(json_view_seq(a@)[i as int] == json_view(a@[i as int]));
                    assert(json_view(a@[i as int]) == JsonV::Str(s@));
                }
                out.push(s.clone());
            },
            _ => {
                proof {
                    lemma_dec_string_seq(json_view_seq(a@));
                }
                return None;
            },
        }
        i = i + 1;
    }
    proof {
        lemma_dec_string_seq(json_view_seq(a@));
        assert(dec_string_seq(json_view_seq(a@))->0 =~= Seq::new(out@.len(), |i: int| out@[i]@));
    }
    Some(out)
}

/// Reads a whole manifest out of a JSON value.
pub fn parse_project(j: &Json) -> (r: Option<ProjectMeta>)
    ensures
        match r {
            Some(m) => Some(m@) == decode_project(json_view(*j)),
            None => decode_project(json_view(*j)) is None,
        },
{
    match j {
        Json::Obj(fields) => {
            let name = match json_get(fields, "name") {
                Some(Json::Str(s)) => s.clone(),
                _ => { return None },
            };
            let version = match get_opt_string(fields, "version") {
                Some(v) => v,
                None => { return None },
            };
            let stages = match json_get(fields, "stages") {
                Some(Json::Arr(a)) => match parse_stages(a) {
                    Some(v) => v,
                    None => { return None },
                },
                _ => { return None },
            };
            let game_settings = match json_get(fields, "gameSettings") {
                None => None,
                Some(Json::Null) => None,
                Some(s) => match parse_settings(s) {
                    Some(gs) => Some(gs),
                    None => { return None },
                },
            };
            let m = ProjectMeta { name, version, stages, game_settings };
            proof {
                assert(m@.stages =~= decode_project(json_view(*j))->0.stages);
            }
            Some(m)
        },
        _ => None,
    }
}

/// The manifest a text holds, if it is JSON of the manifest's shape.
pub open spec fn manifest_of(t: Seq<char>) -> Option<ProjectMetaV> {
    match crate::json::json_of(t) {
        Some(v) => decode_project(v),
        None => None,
    }
}

/// The settings an optional manifest text yields: `None` on a missing
/// text, a malformed text, or a manifest without a settings block.
pub open spec fn settings_of(t: Option<Seq<char>>) -> Option<GameSettingsV> {
    match t {
        Some(s) => match manifest_of(s) {
            Some(m) => m.game_settings,
            None => None,
        },
        None => None,
    }
}

/// Reads a manifest from its text: the resolver's parsing step.
pub fn parse_manifest_text(text: &str) -> (r: Option<ProjectMeta>)
    ensures
        match r {
            Some(m) => Some(m@) == manifest_of(text@),
            None => manifest_of(text@) is None,
        },
{
    match parse_json(text) {
        None => None,
        Some(j) => parse_project(&j),
    }
}

/// Settings resolver: best-effort reading of the manifest text the
/// embedding application found (or did not find) in the working directory.
pub fn read_game_settings(manifest_text: &Option<String>) -> (r: Option<GameSettings>)
    ensures
        opt_settings_view(r) == settings_of(opt_str_view(*manifest_text)),
{
    match manifest_text {
        None => None,
        Some(text) => match parse_manifest_text(text.as_str()) {
            None => None,
            Some(m) => m.game_settings,
        },
    }
}

} // verus!
