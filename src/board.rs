//! State of the interactive ticket viewer: which ticket is selected and what the
//! viewer shows; and the settings of the web board.
use vstd::prelude::*;
use crate::ticket::Ticket;

verus! {

/// What the viewer is asked to do.
#[derive(Clone, Debug)]
pub enum AppEvent {
    Refresh,
    Quit,
    SelectTicket(usize),
    ChangeStatus(String),
    ShowHelp,
}

/// What the viewer shows.
#[derive(Clone, Debug)]
pub enum AppState {
    Normal,
    Help,
    CreatingTicket,
    EditingTicket(usize),
}

/// The viewer: the tickets listed and the one selected.
pub struct App {
    pub tickets: Vec<Ticket>,
    pub selected_ticket: usize,
    pub state: AppState,
    pub status_filter: Option<String>,
}

impl App {
    /// The selection points into the list, or the list is empty.
    pub open spec fn wf(&self) -> bool {
        self.tickets@.len() == 0 || self.selected_ticket < self.tickets@.len()
    }

    pub fn new() -> (r: App)
        ensures
            r.wf(),
            r.tickets@.len() == 0,
            r.selected_ticket == 0,
            r.state is Normal,
            r.status_filter is None,
    {
        App { tickets: Vec::new(), selected_ticket: 0, state: AppState::Normal, status_filter: None }
    }

    /// Selects the next ticket, from the last back to the first.
    pub fn next(&mut self)
        requires
            old(self).wf(),
        ensures
            final(self).wf(),
            final(self).tickets == old(self).tickets,
            final(self).selected_ticket == if old(self).tickets@.len() == 0 {
                old(self).selected_ticket as int
            } else {
                (old(self).selected_ticket + 1) % (old(self).tickets@.len() as int)
            },
    {
        if self.tickets.len() > 0 {
            self.selected_ticket = (self.selected_ticket + 1) % self.tickets.len();
        }
    }

    /// Selects the previous ticket, from the first round to the last.
    pub fn previous(&mut self)
        requires
            old(self).wf(),
        ensures
            final(self).wf(),
            final(self).tickets == old(self).tickets,
            final(self).selected_ticket == if old(self).tickets@.len() == 0 {
                old(self).selected_ticket as int
            } else if old(self).selected_ticket == 0 {
                old(self).tickets@.len() - 1
            } else {
                old(self).selected_ticket - 1
            },
    {
        if self.tickets.len() > 0 {
            self.selected_ticket = if self.selected_ticket == 0 {
                self.tickets.len() - 1
            } else {
                self.selected_ticket - 1
            };
        }
    }

    /// Shows `tickets`, keeping the selection where it still points into them and
    /// else moving it to the last one.
    pub fn update_tickets(&mut self, tickets: Vec<Ticket>)
        ensures
            final(self).tickets@ == tickets@,
            final(self).selected_ticket == if old(self).selected_ticket >= tickets@.len()
                && tickets@.len() > 0 {
                tickets@.len() - 1
            } else {
                old(self).selected_ticket as int
            },
            final(self).tickets@.len() > 0 ==> final(self).wf(),
    {
        self.tickets = tickets;
        if self.selected_ticket >= self.tickets.len() && self.tickets.len() > 0 {
            self.selected_ticket = self.tickets.len() - 1;
        }
    }
}

/// Where the web board listens and whom it assigns new work to.
#[derive(Clone, Debug)]
pub struct WebConfig {
    pub host: String,
    pub port: u16,
    pub default_assignee: Option<String>,
}

pub open spec fn local_host() -> Seq<char> {
    seq!['1', '2', '7', '.', '0', '.', '0', '.', '1']
}

impl Default for WebConfig {
    /// Listens on 127.0.0.1:8080, with no default assignee.
    fn default() -> (r: Self)
        ensures
            r.host@ == local_host(),
            r.port == 8080,
            r.default_assignee is None,
    {
        let h = vec!['1', '2', '7', '.', '0', '.', '0', '.', '1'];
        assert(h@ =~= local_host());
        WebConfig { host: crate::text::string_from_chars(h.as_slice()), port: 8080, default_assignee: None }
    }
}

} // verus!
