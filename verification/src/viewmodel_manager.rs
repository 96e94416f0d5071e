use vstd::prelude::*;

verus! {

/// Whether the view model is ready and whether data collection runs.
///
/// The collector itself is owned by the caller, which starts it when
/// `start_data_collection` says so and stops it when `stop_data_collection`
/// says so.
#[derive(Debug, Clone, Copy, PartialEq, Eq, Structural)]
pub struct ViewModelManager {
    viewmodel_ready: bool,
    collecting: bool,
}

impl ViewModelManager {
    pub closed spec fn ready(&self) -> bool {
        self.viewmodel_ready
    }

    pub closed spec fn spec_collecting(&self) -> bool {
        self.collecting
    }

    /// Not ready, not collecting.
    pub fn new() -> (r: Self)
        ensures
            !r.ready(),
            !r.spec_collecting(),
    {
        ViewModelManager { viewmodel_ready: false, collecting: false }
    }

    pub fn mark_viewmodel_ready(&mut self)
        ensures
            final(self).ready(),
            final(self).spec_collecting() == old(self).spec_collecting(),
    {
        self.viewmodel_ready = true;
    }

    /// Whether a collector is to be started: only once the view model is
    /// ready (a collector already running is replaced by the new one).
    pub fn start_data_collection(&mut self) -> (start: bool)
        ensures
            start == old(self).ready(),
            final(self).ready() == old(self).ready(),
            final(self).spec_collecting() == (old(self).spec_collecting() || old(self).ready()),
    {
        if !self.viewmodel_ready {
            return false;
        }
        self.collecting = true;
        true
    }

    /// Whether a running collector is to be stopped; afterwards none runs.
    pub fn stop_data_collection(&mut self) -> (stop: bool)
        ensures
            stop == old(self).spec_collecting(),
            !final(self).spec_collecting(),
            final(self).ready() == old(self).ready(),
    {
        let was = self.collecting;
        self.collecting = false;
        was
    }

    pub fn is_collecting(&self) -> (r: bool)
        ensures
            r == self.spec_collecting(),
    {
        self.collecting
    }
}

impl Default for ViewModelManager {
    fn default() -> (r: Self)
        ensures
            !r.ready(),
            !r.spec_collecting(),
    {
        ViewModelManager::new()
    }
}

/// Marks the view model of the global manager ready, when there is one.
pub fn mark_viewmodel_ready(manager: &mut Option<ViewModelManager>)
    ensures
        match *old(manager) {
            Some(m) => *final(manager) matches Some(n) && n.ready() && n.spec_collecting() == m.spec_collecting(),
            None => *final(manager) is None,
        },
{
    match manager {
        Some(m) => m.mark_viewmodel_ready(),
        None => {},
    }
}

/// Asks the global manager, when there is one, whether to start collecting.
pub fn start_global_data_collection(manager: &mut Option<ViewModelManager>) -> (start: bool)
    ensures
        match *old(manager) {
            Some(m) => start == m.ready() && (*final(manager) matches Some(n) && n.ready() == m.ready()
                && n.spec_collecting() == (m.spec_collecting() || m.ready())),
            None => !start && *final(manager) is None,
        },
{
    match manager {
        Some(m) => m.start_data_collection(),
        None => false,
    }
}

/// Asks the global manager, when there is one, whether to stop collecting.
pub fn stop_global_data_collection(manager: &mut Option<ViewModelManager>) -> (stop: bool)
    ensures
        match *old(manager) {
            Some(m) => stop == m.spec_collecting() && (*final(manager) matches Some(n) && !n.spec_collecting()
                && n.ready() == m.ready()),
            None => !stop && *final(manager) is None,
        },
{
    match manager {
        Some(m) => m.stop_data_collection(),
        None => false,
    }
}

} // verus!
