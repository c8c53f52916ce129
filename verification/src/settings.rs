//! The settings popup (account, download folder, shares) as a state
//! machine: no client and no terminal, so every transition is stated.

use crate::text::{contains_text, owned, str_eq, trim, trim_str, views};
use vstd::prelude::*;

verus! {

/// What the popup is doing with the keyboard.
#[derive(Debug, Clone, PartialEq, Eq)]
pub enum SettingsMode {
    /// Moving between rows.
    Navigate,
    /// Typing a new download folder.
    EditingDownloadDir,
    /// Typing a new share path to add.
    AddingShare,
    /// Typing a new password; the keystrokes are masked.
    NewPassword,
    /// Typing it again, with the first entry held here: a password reaches
    /// the server unconfirmed, so a typo entered once would change the
    /// account to something nobody knows.
    RepeatPassword(String),
    /// Waiting for "log out?" to be answered.
    ConfirmingLogout,
}

/// A mode as values: its variant's number and the held first entry.
pub open spec fn mode_view(m: SettingsMode) -> (int, Seq<char>) {
    match m {
        SettingsMode::Navigate => (0, Seq::empty()),
        SettingsMode::EditingDownloadDir => (1, Seq::empty()),
        SettingsMode::AddingShare => (2, Seq::empty()),
        SettingsMode::NewPassword => (3, Seq::empty()),
        SettingsMode::RepeatPassword(first) => (4, first@),
        SettingsMode::ConfirmingLogout => (5, Seq::empty()),
    }
}

impl SettingsMode {
    /// Whether what is being typed must not be shown.
    pub fn is_secret(&self) -> (b: bool)
        ensures
            b == (mode_view(*self).0 == 3 || mode_view(*self).0 == 4),
    {
        match self {
            SettingsMode::NewPassword | SettingsMode::RepeatPassword(_) => true,
            _ => false,
        }
    }
}

/// One line the selection can rest on. The rows are derived from the state
/// rather than counted, because the logout row is absent when the session
/// belongs to a daemon.
#[derive(Debug, Clone, Copy, PartialEq, Eq, Structural)]
pub enum SettingsRow {
    ChangePassword,
    Logout,
    DownloadDir,
    /// Share path at this index.
    Share(usize),
}

/// What the interface should do after a key was handled.
#[derive(Debug, Clone, PartialEq, Eq)]
pub enum SettingsAction {
    /// Nothing to do.
    Nothing,
    /// Settings changed: save them and apply the new share set live.
    Apply,
    /// Re-scan the current share paths.
    Reindex,
    /// Close the popup.
    Close,
    /// Make this the account's password.
    ChangePassword(String),
    /// End the session and forget the stored password.
    Logout,
}

/// An action as values: its variant's number and the password it carries.
pub open spec fn action_view(a: SettingsAction) -> (int, Seq<char>) {
    match a {
        SettingsAction::Nothing => (0, Seq::empty()),
        SettingsAction::Apply => (1, Seq::empty()),
        SettingsAction::Reindex => (2, Seq::empty()),
        SettingsAction::Close => (3, Seq::empty()),
        SettingsAction::ChangePassword(p) => (4, p@),
        SettingsAction::Logout => (5, Seq::empty()),
    }
}

/// A key as the popup sees it.
#[derive(Debug, Clone, Copy, PartialEq, Eq, Structural)]
pub enum Key {
    Esc,
    Up,
    Down,
    Enter,
    Backspace,
    Char(char),
    /// Any key the popup has no use for.
    Other,
}

/// Who the session is logged in as and what it offers the network,
/// captured when the popup opens.
#[derive(Debug, Clone, PartialEq, Eq)]
pub struct AccountInfo {
    pub username: String,
    /// Already formatted, e.g. "1234 files in 56 folders".
    pub shares: String,
    /// The port peers can reach us on, when the listener is up.
    pub listen_port: Option<u16>,
    /// The daemon this session is borrowed from: the account is then the
    /// daemon's, and this window cannot log it out.
    pub daemon: Option<String>,
}

/// The popup's state.
pub struct SettingsState {
    pub account: AccountInfo,
    pub download_dir: String,
    pub share_dirs: Vec<String>,
    /// Index into the rows.
    pub selected: usize,
    pub mode: SettingsMode,
    /// Edit buffer while typing.
    pub input: String,
    /// One-line feedback.
    pub status: Option<String>,
}

/// The part of the state a key can change, as values: download folder,
/// shares, selection, mode, edit buffer and feedback.
pub type StateView = (Seq<char>, Seq<Seq<char>>, int, (int, Seq<char>), Seq<char>, Option<Seq<char>>);

/// The rows of a popup with `shares` share paths, logout offered or not.
pub open spec fn rows_of(can_log_out: bool, shares: int) -> Seq<SettingsRow> {
    (if can_log_out {
        seq![SettingsRow::ChangePassword, SettingsRow::Logout, SettingsRow::DownloadDir]
    } else {
        seq![SettingsRow::ChangePassword, SettingsRow::DownloadDir]
    }) + Seq::new(shares as nat, |i: int| SettingsRow::Share(i as usize))
}

/// The last row's index.
pub open spec fn last_row_of(can_log_out: bool, shares: int) -> int {
    rows_of(can_log_out, shares).len() - 1
}

/// The row the selection rests on.
pub open spec fn selected_row_of(can_log_out: bool, v: StateView) -> SettingsRow {
    let last = last_row_of(can_log_out, v.1.len() as int);
    rows_of(can_log_out, v.1.len() as int)[if v.2 < last {
        v.2
    } else {
        last
    }]
}

/// The text of a string option.
pub open spec fn opt_view(o: Option<String>) -> Option<Seq<char>> {
    match o {
        Some(s) => Some(s@),
        None => None,
    }
}

/// The message of a mistyped repeat.
pub open spec fn differ_text() -> Seq<char> {
    "The two passwords differ — nothing was changed"@
}

/// Enter on the selected row, while navigating.
pub open spec fn activated(can_log_out: bool, v: StateView) -> (StateView, (int, Seq<char>)) {
    match selected_row_of(can_log_out, v) {
        SettingsRow::ChangePassword => ((v.0, v.1, v.2, (3, Seq::empty()), Seq::empty(), v.5), (0, Seq::empty())),
        SettingsRow::Logout => ((v.0, v.1, v.2, (5, Seq::empty()), v.4, v.5), (0, Seq::empty())),
        SettingsRow::DownloadDir => ((v.0, v.1, v.2, (1, Seq::empty()), v.0, v.5), (0, Seq::empty())),
        SettingsRow::Share(_) => (v, (0, Seq::empty())),
    }
}

/// A key while navigating (the feedback line is cleared first).
pub open spec fn navigated(can_log_out: bool, v0: StateView, key: Key) -> (StateView, (int, Seq<char>)) {
    let v = (v0.0, v0.1, v0.2, v0.3, v0.4, None::<Seq<char>>);
    let last = last_row_of(can_log_out, v.1.len() as int);
    match key {
        Key::Esc => (v, (3, Seq::empty())),
        Key::Char(c) if c == 'q' || c == 'o' => (v, (3, Seq::empty())),
        Key::Up => ((v.0, v.1, if v.2 > 0 { v.2 - 1 } else { 0 }, v.3, v.4, v.5), (0, Seq::empty())),
        Key::Char(c) if c == 'k' => ((v.0, v.1, if v.2 > 0 { v.2 - 1 } else { 0 }, v.3, v.4, v.5), (0, Seq::empty())),
        Key::Down => ((v.0, v.1, if v.2 < last { v.2 + 1 } else { last }, v.3, v.4, v.5), (0, Seq::empty())),
        Key::Char(c) if c == 'j' => ((v.0, v.1, if v.2 < last { v.2 + 1 } else { last }, v.3, v.4, v.5), (0, Seq::empty())),
        Key::Enter => activated(can_log_out, v),
        Key::Char(c) if c == 'e' && selected_row_of(can_log_out, v) == SettingsRow::DownloadDir => activated(can_log_out, v),
        Key::Char(c) if c == 'a' => ((v.0, v.1, v.2, (2, Seq::empty()), Seq::empty(), v.5), (0, Seq::empty())),
        Key::Char(c) if c == 'd' => match selected_row_of(can_log_out, v) {
            SettingsRow::Share(i) => {
                let shares = v.1.remove(i as int);
                let new_last = last_row_of(can_log_out, shares.len() as int);
                ((v.0, shares, if v.2 < new_last { v.2 } else { new_last }, v.3, v.4, v.5), (1, Seq::empty()))
            },
            _ => (v, (0, Seq::empty())),
        },
        Key::Char(c) if c == 'r' => (v, (2, Seq::empty())),
        _ => (v, (0, Seq::empty())),
    }
}

/// Enter while typing.
pub open spec fn submitted(can_log_out: bool, v: StateView) -> (StateView, (int, Seq<char>)) {
    if v.3.0 == 3 {
        if v.4.len() > 0 {
            ((v.0, v.1, v.2, (4, v.4), Seq::empty(), v.5), (0, Seq::empty()))
        } else {
            ((v.0, v.1, v.2, (0, Seq::empty()), Seq::empty(), v.5), (0, Seq::empty()))
        }
    } else if v.3.0 == 4 {
        if v.4 == v.3.1 {
            ((v.0, v.1, v.2, (0, Seq::empty()), Seq::empty(), v.5), (4, v.4))
        } else {
            ((v.0, v.1, v.2, (0, Seq::empty()), Seq::empty(), Some(differ_text())), (0, Seq::empty()))
        }
    } else {
        let value = trim(v.4);
        let w = (v.0, v.1, v.2, (0, Seq::empty()), Seq::empty(), v.5);
        if value.len() == 0 {
            (w, (0, Seq::empty()))
        } else if v.3.0 == 2 {
            if v.1.contains(value) {
                (w, (0, Seq::empty()))
            } else {
                let shares = v.1.push(value);
                ((w.0, shares, last_row_of(can_log_out, shares.len() as int), w.3, w.4, w.5), (1, Seq::empty()))
            }
        } else {
            ((value, w.1, w.2, w.3, w.4, w.5), (1, Seq::empty()))
        }
    }
}

/// A key while typing.
pub open spec fn typed(can_log_out: bool, v: StateView, key: Key) -> (StateView, (int, Seq<char>)) {
    match key {
        Key::Esc => ((v.0, v.1, v.2, (0, Seq::empty()), Seq::empty(), v.5), (0, Seq::empty())),
        Key::Enter => submitted(can_log_out, v),
        Key::Backspace => ((v.0, v.1, v.2, v.3, if v.4.len() > 0 { v.4.drop_last() } else { v.4 }, v.5), (0, Seq::empty())),
        Key::Char(c) => ((v.0, v.1, v.2, v.3, v.4.push(c), v.5), (0, Seq::empty())),
        _ => (v, (0, Seq::empty())),
    }
}

/// What a key does to the popup, and what the interface should do next.
pub open spec fn handled(can_log_out: bool, v: StateView, key: Key) -> (StateView, (int, Seq<char>)) {
    if v.3.0 == 0 {
        navigated(can_log_out, v, key)
    } else if v.3.0 == 5 {
        let w = (v.0, v.1, v.2, (0, Seq::empty()), v.4, v.5);
        match key {
            Key::Enter => (w, (5, Seq::empty())),
            Key::Char(c) if c == 'y' || c == 'Y' => (w, (5, Seq::empty())),
            _ => (w, (0, Seq::empty())),
        }
    } else {
        typed(can_log_out, v, key)
    }
}

impl SettingsState {
    /// The popup's state as values.
    pub open spec fn view(self) -> StateView {
        (
            self.download_dir@,
            views(self.share_dirs@),
            self.selected as int,
            mode_view(self.mode),
            self.input@,
            opt_view(self.status),
        )
    }

    /// Whether this window may log the account out: not when the session is
    /// borrowed from a daemon, which owns its own login.
    pub open spec fn spec_can_log_out(self) -> bool {
        self.account.daemon is None
    }

    /// A popup on the first row, navigating.
    pub fn new(account: AccountInfo, download_dir: String, share_dirs: Vec<String>) -> (s: Self)
        ensures
            s.account == account,
            s.download_dir == download_dir,
            s.share_dirs == share_dirs,
            s.selected == 0,
            s.mode == SettingsMode::Navigate,
            s.input@.len() == 0,
            s.status is None,
    {
        SettingsState {
            account,
            download_dir,
            share_dirs,
            selected: 0,
            mode: SettingsMode::Navigate,
            input: String::new(),
            status: None,
        }
    }

    /// Whether this window may log the account out.
    pub fn can_log_out(&self) -> (b: bool)
        ensures
            b == self.spec_can_log_out(),
    {
        self.account.daemon.is_none()
    }

    /// Every row, in the order they are drawn.
    pub fn rows(&self) -> (r: Vec<SettingsRow>)
        ensures
            r@ == rows_of(self.spec_can_log_out(), self.share_dirs@.len() as int),
    {
        let mut rows: Vec<SettingsRow> = Vec::new();
        rows.push(SettingsRow::ChangePassword);
        if self.can_log_out() {
            rows.push(SettingsRow::Logout);
        }
        rows.push(SettingsRow::DownloadDir);
        let ghost head = rows@;
        let n = self.share_dirs.len();
        let mut i: usize = 0;
        while i < n
            invariant
                n == self.share_dirs@.len(),
                i <= n,
                rows@ == head + Seq::new(i as nat, |k: int| SettingsRow::Share(k as usize)),
            decreases n - i,
        {
            rows.push(SettingsRow::Share(i));
            assert(head + Seq::new((i + 1) as nat, |k: int| SettingsRow::Share(k as usize)) =~= head
                + Seq::new(i as nat, |k: int| SettingsRow::Share(k as usize)) + seq![
                SettingsRow::Share(i),
            ]);
            i = i + 1;
        }
        assert(rows@ =~= rows_of(self.spec_can_log_out(), self.share_dirs@.len() as int));
        rows
    }

    fn last_row(&self) -> (n: usize)
        ensures
            n == last_row_of(self.spec_can_log_out(), self.share_dirs@.len() as int),
    {
        let rows = self.rows();
        rows.len() - 1
    }

    /// The row the selection rests on.
    pub fn selected_row(&self) -> (r: SettingsRow)
        ensures
            r == selected_row_of(self.spec_can_log_out(), self.view()),
    {
        let rows = self.rows();
        let last = rows.len() - 1;
        let i = if self.selected < last {
            self.selected
        } else {
            last
        };
        rows[i]
    }

    fn clear_input(&mut self)
        ensures
            final(self).input@.len() == 0,
            final(self).account == old(self).account,
            final(self).download_dir == old(self).download_dir,
            final(self).share_dirs == old(self).share_dirs,
            final(self).selected == old(self).selected,
            final(self).mode == old(self).mode,
            final(self).status == old(self).status,
    {
        self.input = String::new();
    }

    fn activate(&mut self) -> (a: SettingsAction)
        ensures
            (final(self).view(), action_view(a)) == activated(old(self).spec_can_log_out(), old(self).view()),
            final(self).account == old(self).account,
    {
        match self.selected_row() {
            SettingsRow::ChangePassword => {
                self.mode = SettingsMode::NewPassword;
                self.clear_input();
            },
            SettingsRow::Logout => {
                self.mode = SettingsMode::ConfirmingLogout;
            },
            SettingsRow::DownloadDir => {
                self.mode = SettingsMode::EditingDownloadDir;
                self.input = self.download_dir.clone();
            },
            SettingsRow::Share(_) => {},
        }
        SettingsAction::Nothing
    }

    fn move_up(&mut self)
        ensures
            final(self).selected == (if old(self).selected > 0 {
                old(self).selected - 1
            } else {
                0
            }),
            final(self).account == old(self).account,
            final(self).download_dir == old(self).download_dir,
            final(self).share_dirs == old(self).share_dirs,
            final(self).mode == old(self).mode,
            final(self).input == old(self).input,
            final(self).status == old(self).status,
    {
        self.selected = if self.selected > 0 {
            self.selected - 1
        } else {
            0
        };
    }

    fn move_down(&mut self)
        ensures
            ({
                let last = last_row_of(old(self).spec_can_log_out(), old(self).share_dirs@.len() as int);
                final(self).selected == (if old(self).selected < last {
                    old(self).selected + 1
                } else {
                    last
                })
            }),
            final(self).account == old(self).account,
            final(self).download_dir == old(self).download_dir,
            final(self).share_dirs == old(self).share_dirs,
            final(self).mode == old(self).mode,
            final(self).input == old(self).input,
            final(self).status == old(self).status,
    {
        let last = self.last_row();
        self.selected = if self.selected < last {
            self.selected + 1
        } else {
            last
        };
    }

    fn delete_selected_share(&mut self) -> (a: SettingsAction)
        ensures
            (final(self).view(), action_view(a)) == (match selected_row_of(
                old(self).spec_can_log_out(),
                old(self).view(),
            ) {
                SettingsRow::Share(i) => {
                    let v = old(self).view();
                    let shares = v.1.remove(i as int);
                    let new_last = last_row_of(old(self).spec_can_log_out(), shares.len() as int);
                    (
                        (v.0, shares, if v.2 < new_last {
                            v.2
                        } else {
                            new_last
                        }, v.3, v.4, v.5),
                        (1int, Seq::<char>::empty()),
                    )
                },
                _ => (old(self).view(), (0int, Seq::<char>::empty())),
            }),
            final(self).account == old(self).account,
    {
        match self.selected_row() {
            SettingsRow::Share(index) => {
                let ghost before = views(self.share_dirs@);
                let _ = self.share_dirs.remove(index);
                assert(views(self.share_dirs@) =~= before.remove(index as int));
                let last = self.last_row();
                self.selected = if self.selected < last {
                    self.selected
                } else {
                    last
                };
                SettingsAction::Apply
            },
            _ => SettingsAction::Nothing,
        }
    }

    fn handle_navigate(&mut self, key: Key) -> (a: SettingsAction)
        requires
            mode_view(old(self).mode).0 == 0,
        ensures
            (final(self).view(), action_view(a)) == navigated(old(self).spec_can_log_out(), old(self).view(), key),
            final(self).account == old(self).account,
    {
        self.status = None;
        match key {
            Key::Esc => SettingsAction::Close,
            Key::Up => {
                self.move_up();
                SettingsAction::Nothing
            },
            Key::Down => {
                self.move_down();
                SettingsAction::Nothing
            },
            Key::Enter => self.activate(),
            Key::Char(c) => {
                if c == 'q' || c == 'o' {
                    SettingsAction::Close
                } else if c == 'k' {
                    self.move_up();
                    SettingsAction::Nothing
                } else if c == 'j' {
                    self.move_down();
                    SettingsAction::Nothing
                } else if c == 'e' && self.selected_row() == SettingsRow::DownloadDir {
                    self.activate()
                } else if c == 'a' {
                    self.mode = SettingsMode::AddingShare;
                    self.clear_input();
                    SettingsAction::Nothing
                } else if c == 'd' {
                    self.delete_selected_share()
                } else if c == 'r' {
                    SettingsAction::Reindex
                } else {
                    SettingsAction::Nothing
                }
            },
            _ => SettingsAction::Nothing,
        }
    }

    fn submit(&mut self) -> (a: SettingsAction)
        requires
            mode_view(old(self).mode).0 >= 1,
            mode_view(old(self).mode).0 <= 4,
        ensures
            (final(self).view(), action_view(a)) == submitted(old(self).spec_can_log_out(), old(self).view()),
            final(self).account == old(self).account,
    {
        let mut typed = String::new();
        std::mem::swap(&mut typed, &mut self.input);
        match &self.mode {
            SettingsMode::NewPassword => {
                if typed.unicode_len() > 0 {
                    self.mode = SettingsMode::RepeatPassword(typed);
                } else {
                    self.mode = SettingsMode::Navigate;
                }
                return SettingsAction::Nothing;
            },
            SettingsMode::RepeatPassword(first) => {
                let same = str_eq(typed.as_str(), first.as_str());
                self.mode = SettingsMode::Navigate;
                if !same {
                    self.status = Some(owned("The two passwords differ — nothing was changed"));
                    return SettingsAction::Nothing;
                }
                return SettingsAction::ChangePassword(typed);
            },
            _ => {},
        }
        let adding = match self.mode {
            SettingsMode::AddingShare => true,
            _ => false,
        };
        self.mode = SettingsMode::Navigate;
        let value = owned(trim_str(typed.as_str()));
        if value.unicode_len() == 0 {
            return SettingsAction::Nothing;
        }
        if adding {
            if contains_text(&self.share_dirs, value.as_str()) {
                return SettingsAction::Nothing;
            }
            let ghost before = views(self.share_dirs@);
            self.share_dirs.push(value);
            assert(views(self.share_dirs@) =~= before.push(trim(typed@)));
            self.selected = self.last_row();
        } else {
            self.download_dir = value;
        }
        SettingsAction::Apply
    }

    fn handle_typing(&mut self, key: Key) -> (a: SettingsAction)
        requires
            mode_view(old(self).mode).0 >= 1,
            mode_view(old(self).mode).0 <= 4,
        ensures
            (final(self).view(), action_view(a)) == typed(old(self).spec_can_log_out(), old(self).view(), key),
            final(self).account == old(self).account,
    {
        match key {
            Key::Esc => {
                self.mode = SettingsMode::Navigate;
                self.clear_input();
                SettingsAction::Nothing
            },
            Key::Enter => self.submit(),
            Key::Backspace => {
                let n = self.input.unicode_len();
                if n > 0 {
                    let shorter = owned(self.input.as_str().substring_char(0, n - 1));
                    assert(shorter@ =~= old(self).input@.drop_last());
                    self.input = shorter;
                }
                SettingsAction::Nothing
            },
            Key::Char(c) => {
                crate::text::push_char(&mut self.input, c);
                SettingsAction::Nothing
            },
            _ => SettingsAction::Nothing,
        }
    }

    /// Handles one key: moving, editing, confirming or closing.
    pub fn handle_key(&mut self, key: Key) -> (a: SettingsAction)
        ensures
            (final(self).view(), action_view(a)) == handled(old(self).spec_can_log_out(), old(self).view(), key),
            final(self).account == old(self).account,
    {
        match self.mode {
            SettingsMode::Navigate => self.handle_navigate(key),
            SettingsMode::ConfirmingLogout => {
                self.mode = SettingsMode::Navigate;
                match key {
                    Key::Enter => SettingsAction::Logout,
                    Key::Char(c) if c == 'y' || c == 'Y' => SettingsAction::Logout,
                    _ => SettingsAction::Nothing,
                }
            },
            _ => self.handle_typing(key),
        }
    }
}

/// A password is changed only by typing it twice the same way: no key
/// sequence asks the interface to change it from the first entry alone.
pub proof fn lemma_password_needs_a_matching_repeat(can_log_out: bool, v: StateView, key: Key)
    requires
        handled(can_log_out, v, key).1.0 == 4,
    ensures
        v.3.0 == 4,
        key == Key::Enter,
        v.4 == v.3.1,
        handled(can_log_out, v, key).1.1 == v.3.1,
{
}

/// Logging out takes a confirmation: only a key answering "log out?" asks
/// for it.
pub proof fn lemma_logout_is_confirmed(can_log_out: bool, v: StateView, key: Key)
    requires
        handled(can_log_out, v, key).1.0 == 5,
    ensures
        v.3.0 == 5,
{
}

} // verus!
