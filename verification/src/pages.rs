//! The pages of the application and how much of the stage glow each lets
//! through.

use vstd::prelude::*;

verus! {

/// A page of the application.
#[derive(Debug, Clone, Copy, PartialEq, Eq, Structural)]
pub enum View {
    Home,
    Library,
    Favorites,
    Playlists,
    Lyrics,
    Visuals,
    Settings,
}

/// Active page of the visual stage inspector (transient editing state).
#[derive(Debug, Clone, Copy, PartialEq, Eq, Structural)]
pub enum VisualInspectorTab {
    Composition,
    Atmosphere,
}

impl Default for VisualInspectorTab {
    fn default() -> (tab: VisualInspectorTab)
        ensures
            tab == VisualInspectorTab::Composition,
    {
        VisualInspectorTab::Composition
    }
}

/// Opacity of the scrim behind a page's content: the denser the
/// information, the more it hides the glow of the stage behind.
pub open spec fn surface_alpha(view: View) -> u8 {
    match view {
        View::Visuals => 92,
        View::Home => 128,
        _ => 148,
    }
}

pub fn content_surface_alpha(view: View) -> (alpha: u8)
    ensures
        alpha == surface_alpha(view),
{
    match view {
        View::Visuals => 92,
        View::Home => 128,
        View::Library | View::Favorites | View::Playlists | View::Lyrics | View::Settings => 148,
    }
}

/// Pages ordered by information density never let more glow through:
/// the stage page is the most transparent, home next, every listing page
/// the most opaque.
pub proof fn scrims_follow_information_density(view: View)
    ensures
        surface_alpha(View::Visuals) < surface_alpha(View::Home),
        view != View::Visuals && view != View::Home ==> surface_alpha(View::Home) < surface_alpha(
            view,
        ),
        surface_alpha(View::Visuals) <= surface_alpha(view),
{
}

} // verus!
