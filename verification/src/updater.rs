//! The updater: it looks at the session at intervals and keeps the front
//! end up to date, also while the session is busy.
use vstd::prelude::*;
use vstd::slice::slice_to_vec;
use crate::bytes::ascii;
use crate::session::{effects, Action, Effect, Outcome, Session};

verus! {

/// After so many looks in a row that found the session busy, the front
/// end is told to update without a look.
pub const PATIENCE: u8 = 3;

pub struct Updater {
    misses: u8,
}

impl View for Updater {
    type V = nat;

    /// How many looks in a row found the session busy.
    closed spec fn view(&self) -> nat {
        self.misses as nat
    }
}

impl Updater {
    /// The looks that found the session busy are fewer than it takes to
    /// force an update.
    pub open spec fn wf(&self) -> bool {
        self@ < PATIENCE
    }

    pub fn new() -> (updater: Updater)
        ensures
            updater.wf(),
            updater@ == 0,
    {
        Updater { misses: 0 }
    }

    /// A look that found the session free: the front end is told what is
    /// new in the session, and the count of busy looks begins anew.
    pub fn acquired(&mut self, session: &mut Session) -> (actions: Vec<Action>)
        requires
            old(session).wf(),
        ensures
            final(self).wf(),
            final(self)@ == 0,
            final(session).wf(),
            (Outcome { state: final(session)@, effects: effects(actions@) }) == old(
                session,
            )@.refreshed(),
    {
        self.misses = 0;
        session.refresh()
    }

    /// A look that found the session busy. The third such look in a row
    /// tells the front end to update, whatever the session holds, and the
    /// count begins anew.
    pub fn missed(&mut self) -> (actions: Vec<Action>)
        requires
            old(self).wf(),
        ensures
            final(self).wf(),
            old(self)@ + 1 == PATIENCE ==> final(self)@ == 0 && effects(actions@) == seq![
                Effect::Tell(ascii("UPDATE")),
            ],
            old(self)@ + 1 < PATIENCE ==> final(self)@ == old(self)@ + 1 && effects(actions@)
                == Seq::<Effect>::empty(),
    {
        let mut actions: Vec<Action> = Vec::new();
        self.misses = self.misses + 1;
        if self.misses == PATIENCE {
            self.misses = 0;
            actions.push(Action::Tell(slice_to_vec("UPDATE".as_bytes())));
            assert(effects(actions@) =~= seq![Effect::Tell(ascii("UPDATE"))]);
        } else {
            assert(effects(actions@) =~= Seq::<Effect>::empty());
        }
        actions
    }
}

} // verus!
