//! Which OpenGL APIs and context versions EGL is asked for, in order.
use vstd::prelude::*;

verus! {

/// The client API a GL context is created for.
#[derive(Debug, Clone, Copy, PartialEq, Eq, Structural)]
pub enum GlApiType {
    OpenGL,
    OpenGLES,
}

/// The APIs to try, in order: desktop OpenGL first, then OpenGL ES.
pub fn api_preference() -> (r: Vec<GlApiType>)
    ensures
        r@ == seq![GlApiType::OpenGL, GlApiType::OpenGLES],
{
    let mut v: Vec<GlApiType> = Vec::new();
    v.push(GlApiType::OpenGL);
    v.push(GlApiType::OpenGLES);
    assert(v@ =~= seq![GlApiType::OpenGL, GlApiType::OpenGLES]);
    v
}

/// The context versions to try for an API, newest first.
pub open spec fn versions_for(api: GlApiType) -> Seq<(i32, i32)> {
    match api {
        GlApiType::OpenGL => seq![(4i32, 6i32), (4, 5), (4, 0), (3, 3), (3, 0)],
        GlApiType::OpenGLES => seq![(3i32, 2i32), (3, 1), (3, 0), (2, 0)],
    }
}

/// The (major, minor) context versions to try for an API, newest first;
/// the first one that EGL creates is used.
pub fn context_versions(api: GlApiType) -> (r: Vec<(i32, i32)>)
    ensures
        r@ == versions_for(api),
{
    let mut v: Vec<(i32, i32)> = Vec::new();
    match api {
        GlApiType::OpenGL => {
            v.push((4, 6));
            v.push((4, 5));
            v.push((4, 0));
            v.push((3, 3));
            v.push((3, 0));
        },
        GlApiType::OpenGLES => {
            v.push((3, 2));
            v.push((3, 1));
            v.push((3, 0));
            v.push((2, 0));
        },
    }
    assert(v@ =~= versions_for(api));
    v
}

/// The API at a position of [`api_preference`].
pub open spec fn api_at(i: nat) -> GlApiType {
    if i == 0 {
        GlApiType::OpenGL
    } else {
        GlApiType::OpenGLES
    }
}

/// Where the search for a GL context stands, for the API at position `api`
/// of the preference order (2 once every API has failed).
#[derive(Debug, Clone, Copy, PartialEq, Eq, Structural)]
pub enum EglStage {
    /// Bind the API.
    Bind,
    /// Choose an RGBA8888 config that can render with the API.
    Config,
    /// Create a context of the version at this position of [`versions_for`].
    Context(usize),
}

/// The search for a GL context: an API position and a stage.
#[derive(Debug, Clone, Copy, PartialEq, Eq, Structural)]
pub struct EglSearch {
    pub api: usize,
    pub stage: EglStage,
}

/// What the search asks EGL to do next.
#[derive(Debug, Clone, Copy, PartialEq, Eq, Structural)]
pub enum EglAction {
    BindApi(GlApiType),
    ChooseConfig(GlApiType),
    CreateContext(GlApiType, i32, i32),
    /// Every API failed.
    GiveUp,
}

/// Whether a search state is one the search can be in: a known API (or the
/// end), and a context position within that API's versions.
pub open spec fn search_wf(st: EglSearch) -> bool {
    st.api <= 2 && match st.stage {
        EglStage::Context(k) => st.api < 2 && k < versions_for(api_at(st.api as nat)).len(),
        _ => true,
    }
}

/// The action of a search state.
pub open spec fn search_action(st: EglSearch) -> EglAction {
    if st.api >= 2 {
        EglAction::GiveUp
    } else {
        let api = api_at(st.api as nat);
        match st.stage {
            EglStage::Bind => EglAction::BindApi(api),
            EglStage::Config => EglAction::ChooseConfig(api),
            EglStage::Context(k) => EglAction::CreateContext(api, versions_for(api)[k as int].0, versions_for(api)[k as int].1),
        }
    }
}

/// The state after the current attempt: `None` once a context was created.
/// A failed bind or config, or a failed last context version, moves on to
/// the next API; a failed context version moves on to the next (older) one.
pub open spec fn search_after(st: EglSearch, succeeded: bool) -> Option<EglSearch> {
    let next_api = EglSearch { api: (st.api + 1) as usize, stage: EglStage::Bind };
    match st.stage {
        EglStage::Bind => if succeeded {
            Some(EglSearch { stage: EglStage::Config, ..st })
        } else {
            Some(next_api)
        },
        EglStage::Config => if succeeded {
            Some(EglSearch { stage: EglStage::Context(0), ..st })
        } else {
            Some(next_api)
        },
        EglStage::Context(k) => if succeeded {
            None
        } else if k + 1 < versions_for(api_at(st.api as nat)).len() {
            Some(EglSearch { stage: EglStage::Context((k + 1) as usize), ..st })
        } else {
            Some(next_api)
        },
    }
}

/// The search before any attempt: bind the first API.
pub fn egl_search_start() -> (r: EglSearch)
    ensures
        r == (EglSearch { api: 0, stage: EglStage::Bind }),
        search_wf(r),
{
    EglSearch { api: 0, stage: EglStage::Bind }
}

/// What to ask EGL for in a search state.
pub fn egl_action(st: &EglSearch) -> (r: EglAction)
    requires
        search_wf(*st),
    ensures
        r == search_action(*st),
{
    if st.api >= 2 {
        return EglAction::GiveUp;
    }
    let apis = api_preference();
    let api = apis[st.api];
    match st.stage {
        EglStage::Bind => EglAction::BindApi(api),
        EglStage::Config => EglAction::ChooseConfig(api),
        EglStage::Context(k) => {
            let versions = context_versions(api);
            let (major, minor) = versions[k];
            EglAction::CreateContext(api, major, minor)
        },
    }
}

/// The search state after an attempt (`None` once a context exists).
pub fn egl_search_after(st: &EglSearch, succeeded: bool) -> (r: Option<EglSearch>)
    requires
        search_wf(*st),
        st.api < 2,
    ensures
        r == search_after(*st, succeeded),
        r matches Some(n) ==> search_wf(n),
{
    match st.stage {
        EglStage::Bind => if succeeded {
            Some(EglSearch { api: st.api, stage: EglStage::Config })
        } else {
            Some(EglSearch { api: st.api + 1, stage: EglStage::Bind })
        },
        EglStage::Config => if succeeded {
            Some(EglSearch { api: st.api, stage: EglStage::Context(0) })
        } else {
            Some(EglSearch { api: st.api + 1, stage: EglStage::Bind })
        },
        EglStage::Context(k) => {
            if succeeded {
                None
            } else {
                let apis = api_preference();
                let count = context_versions(apis[st.api]).len();
                if k + 1 < count {
                    Some(EglSearch { api: st.api, stage: EglStage::Context(k + 1) })
                } else {
                    Some(EglSearch { api: st.api + 1, stage: EglStage::Bind })
                }
            }
        },
    }
}

/// How far a search state is along the order of attempts.
pub open spec fn search_rank(st: EglSearch) -> int {
    st.api * 10 + match st.stage {
        EglStage::Bind => 0,
        EglStage::Config => 1,
        EglStage::Context(k) => 2 + k,
    }
}

/// The search never repeats an attempt and always ends: every failed
/// attempt moves strictly forward in the order of attempts, and only a
/// created context ends it before every API was given up on.
pub proof fn law_egl_search_moves_forward(st: EglSearch, succeeded: bool)
    requires
        search_wf(st),
        st.api < 2,
    ensures
        search_after(st, succeeded) matches Some(n) ==> search_rank(st) < search_rank(n) && search_wf(n),
        search_after(st, succeeded) is None <==> (succeeded && st.stage is Context),
{
}

/// Versions are tried newest first: each later version of an API is older.
pub proof fn law_versions_newest_first(api: GlApiType, i: int, j: int)
    requires
        0 <= i < j < versions_for(api).len(),
    ensures
        versions_for(api)[j].0 < versions_for(api)[i].0 || (versions_for(api)[j].0 == versions_for(api)[i].0
            && versions_for(api)[j].1 < versions_for(api)[i].1),
{
}

} // verus!
