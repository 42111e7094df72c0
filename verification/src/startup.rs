//! Decisions the player makes while starting: which outputs to cover, which
//! watch lists to honour, how mpv is initialised, and which surfaces get a
//! renderer.
use vstd::prelude::*;

use crate::cli::Args;
use crate::config::{list_entries, parse_list_content};
use crate::error::Result;
use crate::mpv::options::{pairs_view, parse_user_options, user_options_outcome, OptionPair};
use crate::mpv::ParsedMpvOptions;
use crate::text::{own, strings_view};
use crate::wayland::output::DisplayOutput;

verus! {

/// The output selector: the one given, else `*` (every output).
pub fn output_selector(args: &Args) -> (r: &str)
    ensures
        r@ == match args.output {
            Some(o) => o@,
            None => "*"@,
        },
{
    match &args.output {
        Some(o) => o.as_str(),
        None => "*",
    }
}

/// A watch list, given the text of its file (`None` when the file is missing
/// or cannot be read): its entries, unless there are none.
pub fn watchlist_from(content: Option<&str>) -> (r: Option<Vec<String>>)
    ensures
        match content {
            Some(t) => match r {
                Some(v) => list_entries(t@).len() > 0 && strings_view(v@) == list_entries(t@),
                None => list_entries(t@).len() == 0,
            },
            None => r is None,
        },
{
    match content {
        Some(t) => {
            let list = parse_list_content(t);
            if list.len() == 0 {
                None
            } else {
                Some(list)
            }
        },
        None => None,
    }
}

/// The user's `-o` options, split into init-time options and runtime
/// properties; none when `-o` is not given.
pub fn mpv_options_of(args: &Args) -> (r: Result<ParsedMpvOptions>)
    ensures
        match args.mpv_options {
            Some(o) => user_options_outcome(o@, r),
            None => r matches Ok(p) && p@.0.len() == 0 && p@.1.len() == 0,
        },
{
    match &args.mpv_options {
        Some(o) => parse_user_options(o.as_str()),
        None => Ok(ParsedMpvOptions::empty()),
    }
}

/// The options mpv is initialised with, in order: the video output for
/// embedding (`vo=libmpv`), a transparent background, terminal and input
/// handling, `config=yes` when config files are to be loaded, then the
/// user's init-time options.
pub open spec fn init_options_plan(load_config: bool, user: Seq<OptionPair>) -> Seq<OptionPair> {
    seq![
        ("vo"@, "libmpv"@),
        ("background"@, "none"@),
        ("terminal"@, "yes"@),
        ("input-default-bindings"@, "yes"@),
        ("input-terminal"@, "yes"@),
    ] + (if load_config {
        seq![("config"@, "yes"@)]
    } else {
        Seq::empty()
    }) + user
}

/// An owned `(name, value)` pair.
fn pair(name: &str, value: &str) -> (r: (String, String))
    ensures
        r.0@ == name@,
        r.1@ == value@,
{
    (own(name), own(value))
}

/// The options mpv is initialised with: see [`init_options_plan`].
pub fn init_options(load_config: bool, user: &Vec<(String, String)>) -> (r: Vec<(String, String)>)
    ensures
        pairs_view(r@) == init_options_plan(load_config, pairs_view(user@)),
{
    let ghost fixed = seq![
        ("vo"@, "libmpv"@),
        ("background"@, "none"@),
        ("terminal"@, "yes"@),
        ("input-default-bindings"@, "yes"@),
        ("input-terminal"@, "yes"@),
    ];
    let mut out: Vec<(String, String)> = Vec::new();
    out.push(pair("vo", "libmpv"));
    out.push(pair("background", "none"));
    out.push(pair("terminal", "yes"));
    out.push(pair("input-default-bindings", "yes"));
    out.push(pair("input-terminal", "yes"));
    assert(pairs_view(out@) =~= fixed);
    if load_config {
        out.push(pair("config", "yes"));
    }
    let ghost head = pairs_view(out@);
    assert(head =~= fixed + (if load_config {
        seq![("config"@, "yes"@)]
    } else {
        Seq::empty()
    }));
    let mut i: usize = 0;
    while i < user.len()
        invariant
            i <= user.len(),
            pairs_view(out@) == head + pairs_view(user@).take(i as int),
        decreases user.len() - i,
    {
        let k = user[i].0.clone();
        let v = user[i].1.clone();
        let ghost prev = pairs_view(out@);
        out.push((k, v));
        assert(pairs_view(out@) =~= prev.push((k@, v@)));
        assert(pairs_view(user@)[i as int] == (k@, v@));
        assert(pairs_view(user@).take(i + 1) =~= pairs_view(user@).take(i as int).push(pairs_view(user@)[i as int]));
        assert(pairs_view(out@) =~= head + pairs_view(user@).take(i + 1));
        i = i + 1;
    }
    assert(pairs_view(user@).take(i as int) =~= pairs_view(user@));
    out
}

/// Whether an output is ready for a renderer: it has a layer surface and a
/// configured, non-zero size.
pub open spec fn wants_renderer(o: DisplayOutput) -> bool {
    o.layer_surface_id is Some && o.width > 0 && o.height > 0
}

/// Whether an output is ready for a renderer.
pub fn ready_for_renderer(o: &DisplayOutput) -> (r: bool)
    ensures
        r == wants_renderer(*o),
{
    o.layer_surface_id.is_some() && o.width > 0 && o.height > 0
}

/// The first output that has an EGL surface: the one whose surface is made
/// current to create mpv's render context.
pub fn first_with_surface(outputs: &Vec<DisplayOutput>) -> (r: Option<usize>)
    ensures
        match r {
            Some(i) => i < outputs@.len() && outputs@[i as int].has_egl_surface && forall|j: int|
                0 <= j < i ==> !(#[trigger] outputs@[j]).has_egl_surface,
            None => forall|j: int| 0 <= j < outputs@.len() ==> !(#[trigger] outputs@[j]).has_egl_surface,
        },
{
    let mut i: usize = 0;
    while i < outputs.len()
        invariant
            i <= outputs.len(),
            forall|j: int| 0 <= j < i ==> !(#[trigger] outputs@[j]).has_egl_surface,
        decreases outputs.len() - i,
    {
        if outputs[i].has_egl_surface {
            return Some(i);
        }
        i = i + 1;
    }
    None
}

/// One property set on mpv once it is initialised.
pub struct PropertySetting {
    pub name: String,
    pub value: String,
    /// A value to set instead when mpv refuses `value`.
    pub fallback: Option<String>,
    /// Whether mpv refusing the setting ends startup (the user's options) or
    /// is ignored (the wallpaper defaults).
    pub required: bool,
}

/// The text of a [`PropertySetting`].
pub open spec fn setting_view(p: PropertySetting) -> (Seq<char>, Seq<char>, Option<Seq<char>>, bool) {
    (
        p.name@,
        p.value@,
        match p.fallback {
            Some(f) => Some(f@),
            None => None,
        },
        p.required,
    )
}

/// The properties set after initialisation, in order: the wallpaper
/// defaults (`audio=no`; `hwdec=auto-safe`, else `auto`), which may fail,
/// then the user's runtime properties, which must not; set later, the
/// user's values override the defaults.
pub open spec fn property_plan_of(user: Seq<OptionPair>) -> Seq<(Seq<char>, Seq<char>, Option<Seq<char>>, bool)> {
    seq![("audio"@, "no"@, None, false), ("hwdec"@, "auto-safe"@, Some("auto"@), false)] + user.map_values(
        |p: OptionPair| (p.0, p.1, None::<Seq<char>>, true),
    )
}

/// The properties set after initialisation: see [`property_plan_of`].
pub fn property_plan(user: &Vec<(String, String)>) -> (r: Vec<PropertySetting>)
    ensures
        r@.map_values(|p: PropertySetting| setting_view(p)) == property_plan_of(pairs_view(user@)),
{
    let mut out: Vec<PropertySetting> = Vec::new();
    out.push(PropertySetting { name: own("audio"), value: own("no"), fallback: None, required: false });
    out.push(
        PropertySetting { name: own("hwdec"), value: own("auto-safe"), fallback: Some(own("auto")), required: false },
    );
    let ghost head = seq![("audio"@, "no"@, None::<Seq<char>>, false), ("hwdec"@, "auto-safe"@, Some("auto"@), false)];
    let ghost tail = pairs_view(user@).map_values(|p: OptionPair| (p.0, p.1, None::<Seq<char>>, true));
    assert(out@.map_values(|p: PropertySetting| setting_view(p)) =~= head);
    let mut i: usize = 0;
    while i < user.len()
        invariant
            i <= user.len(),
            tail == pairs_view(user@).map_values(|p: OptionPair| (p.0, p.1, None::<Seq<char>>, true)),
            out@.map_values(|p: PropertySetting| setting_view(p)) == head + tail.take(i as int),
        decreases user.len() - i,
    {
        let name = user[i].0.clone();
        let value = user[i].1.clone();
        let ghost prev = out@.map_values(|p: PropertySetting| setting_view(p));
        let setting = PropertySetting { name, value, fallback: None, required: true };
        assert(setting_view(setting) == tail[i as int]);
        out.push(setting);
        assert(out@.map_values(|p: PropertySetting| setting_view(p)) =~= prev.push(tail[i as int]));
        assert(tail.take(i + 1) =~= tail.take(i as int).push(tail[i as int]));
        i = i + 1;
    }
    assert(tail.take(i as int) =~= tail);
    out
}

} // verus!
