//! The modes of the interface, told apart by type.
use core::marker::PhantomData;
use vstd::prelude::*;

verus! {

/// Marks the types that name a mode of the interface.
pub trait StateMarker {

}

/// The mode that shows the picture.
#[derive(Debug, Clone, Copy)]
pub struct RenderState;

/// The mode that shows the list of keys.
#[derive(Debug, Clone, Copy)]
pub struct HelpState;

/// The mode that times the drawing of a picture.
#[derive(Debug, Clone, Copy)]
pub struct BenchmarkState;

impl StateMarker for HelpState {

}

impl StateMarker for RenderState {

}

impl StateMarker for BenchmarkState {

}

/// The interface in the mode `S`.
#[derive(Debug)]
pub struct App<S: StateMarker> {
    /// Whether the user has asked to leave.
    pub should_quit: bool,
    /// The mode, which takes no room.
    pub state: PhantomData<S>,
}

impl<S: StateMarker> App<S> {
    /// The interface in the mode `S`, with the given wish to leave.
    pub open spec fn spec_new(should_quit: bool) -> App<S> {
        App { should_quit, state: PhantomData }
    }

    /// The interface in the mode `S`, with the given wish to leave.
    pub fn new(should_quit: bool) -> (app: App<S>)
        ensures
            app == App::<S>::spec_new(should_quit),
            app.should_quit == should_quit,
    {
        App { should_quit, state: PhantomData }
    }
}

impl<S: StateMarker> Clone for App<S> {
    fn clone(&self) -> (app: App<S>)
        ensures
            app == *self,
    {
        App { should_quit: self.should_quit, state: PhantomData }
    }
}

impl<S: StateMarker> Copy for App<S> {

}

impl<S: StateMarker> Default for App<S> {
    fn default() -> (app: App<S>)
        ensures
            app == App::<S>::spec_new(false),
            !app.should_quit,
    {
        App { should_quit: false, state: PhantomData }
    }
}

impl From<App<HelpState>> for App<RenderState> {
    fn from(value: App<HelpState>) -> (app: App<RenderState>) {
        App { should_quit: value.should_quit, state: PhantomData }
    }
}

impl vstd::std_specs::convert::FromSpecImpl<App<HelpState>> for App<RenderState> {
    open spec fn obeys_from_spec() -> bool {
        true
    }

    open spec fn from_spec(value: App<HelpState>) -> App<RenderState> {
        App::<RenderState>::spec_new(value.should_quit)
    }
}

impl From<App<RenderState>> for App<HelpState> {
    fn from(value: App<RenderState>) -> (app: App<HelpState>) {
        App { should_quit: value.should_quit, state: PhantomData }
    }
}

impl vstd::std_specs::convert::FromSpecImpl<App<RenderState>> for App<HelpState> {
    open spec fn obeys_from_spec() -> bool {
        true
    }

    open spec fn from_spec(value: App<RenderState>) -> App<HelpState> {
        App::<HelpState>::spec_new(value.should_quit)
    }
}

impl From<App<BenchmarkState>> for App<RenderState> {
    fn from(value: App<BenchmarkState>) -> (app: App<RenderState>) {
        App { should_quit: value.should_quit, state: PhantomData }
    }
}

impl vstd::std_specs::convert::FromSpecImpl<App<BenchmarkState>> for App<RenderState> {
    open spec fn obeys_from_spec() -> bool {
        true
    }

    open spec fn from_spec(value: App<BenchmarkState>) -> App<RenderState> {
        App::<RenderState>::spec_new(value.should_quit)
    }
}

impl From<App<RenderState>> for App<BenchmarkState> {
    fn from(value: App<RenderState>) -> (app: App<BenchmarkState>) {
        App { should_quit: value.should_quit, state: PhantomData }
    }
}

impl vstd::std_specs::convert::FromSpecImpl<App<RenderState>> for App<BenchmarkState> {
    open spec fn obeys_from_spec() -> bool {
        true
    }

    open spec fn from_spec(value: App<RenderState>) -> App<BenchmarkState> {
        App::<BenchmarkState>::spec_new(value.should_quit)
    }
}

} // verus!
