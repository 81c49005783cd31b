//! The state of the chat view and what each key does to it. Drawing the
//! view, reading the keyboard and moving frames over the network are left to
//! the caller.

use vstd::prelude::*;
use crate::message::{ClientMessage, MessageView, message_bytes};
use crate::text::{push_char, pop_char};
use crate::widgets::{Area, Bubble, MessageRenderer, layout_plan, message_views};

verus! {

/// The two areas, as (x, y, width, height), that ratatui's `Layout` gives
/// when it splits the area at (x, y) of the given size vertically into a part
/// of at least `top_min` rows above a part of `bottom_len` rows.
pub uninterp spec fn vertical_split(x: u16, y: u16, width: u16, height: u16, top_min: u16, bottom_len: u16) -> (
    (u16, u16, u16, u16),
    (u16, u16, u16, u16),
);

/// `ratatui::layout::Layout::split`, vertically with the constraints
/// `Min(top_min)` and `Length(bottom_len)`. The solver's result is named, not
/// stated.
#[verifier::external_body]
fn split_vertical(area: &Area, top_min: u16, bottom_len: u16) -> (r: (Area, Area))
    ensures
        vertical_split(area.x, area.y, area.width, area.height, top_min, bottom_len) == (
            (r.0.x, r.0.y, r.0.width, r.0.height),
            (r.1.x, r.1.y, r.1.width, r.1.height),
        ),
{
    let chunks = ratatui::layout::Layout::default()
        .direction(ratatui::layout::Direction::Vertical)
        .constraints([ratatui::layout::Constraint::Min(top_min), ratatui::layout::Constraint::Length(bottom_len)])
        .split(ratatui::layout::Rect::new(area.x, area.y, area.width, area.height));
    (
        Area { x: chunks[0].x, y: chunks[0].y, width: chunks[0].width, height: chunks[0].height },
        Area { x: chunks[1].x, y: chunks[1].y, width: chunks[1].width, height: chunks[1].height },
    )
}

/// Whether keys edit the message being typed or command the view.
pub enum InputMode {
    Normal,
    Editing,
}

/// A key the user pressed, as far as the chat view tells keys apart.
pub enum Key {
    Char(char),
    Enter,
    Backspace,
    Esc,
    Other,
}

/// What the caller has to do after a key.
pub enum KeyOutcome {
    /// Nothing beyond drawing the view again.
    Continue,
    /// Send this frame to the server.
    Send(Vec<u8>),
    /// Leave the chat view.
    Quit,
}

/// What the chat view shows and is typing, as far as keys change it.
pub struct ViewState {
    pub editing: bool,
    pub input: Seq<char>,
    pub shown: Seq<MessageView>,
}

/// What the caller is asked to do after a key, by value.
pub enum OutcomeView {
    Continue,
    Send(Seq<u8>),
    Quit,
}

/// An outcome taken by value.
pub open spec fn outcome_view(r: KeyOutcome) -> OutcomeView {
    match r {
        KeyOutcome::Continue => OutcomeView::Continue,
        KeyOutcome::Send(b) => OutcomeView::Send(b@),
        KeyOutcome::Quit => OutcomeView::Quit,
    }
}

/// What a key does to the chat view of `from_id` talking to `to_id`. In
/// normal mode 'e' starts editing and 'q' or Esc quits. In editing mode
/// characters are typed, Backspace erases the last one, Esc returns to
/// normal mode, and Enter sends the typed text, if there is any, as a
/// message to the other user: the text is cleared, the message shown, and
/// its frame handed back to be sent.
pub open spec fn key_step(from_id: u64, to_id: u64, st: ViewState, key: Key) -> (ViewState, OutcomeView) {
    if !st.editing {
        match key {
            Key::Char(c) => if c == 'e' {
                (ViewState { editing: true, ..st }, OutcomeView::Continue)
            } else if c == 'q' {
                (st, OutcomeView::Quit)
            } else {
                (st, OutcomeView::Continue)
            },
            Key::Esc => (st, OutcomeView::Quit),
            _ => (st, OutcomeView::Continue),
        }
    } else {
        match key {
            Key::Enter => if st.input.len() == 0 {
                (st, OutcomeView::Continue)
            } else {
                let msg = MessageView { recipient_id: to_id, sender_id: from_id, content: st.input };
                (
                    ViewState { editing: true, input: Seq::empty(), shown: st.shown.push(msg) },
                    OutcomeView::Send(message_bytes(msg)),
                )
            },
            Key::Char(c) => (ViewState { input: st.input.push(c), ..st }, OutcomeView::Continue),
            Key::Backspace => (
                ViewState {
                    input: if st.input.len() == 0 { st.input } else { st.input.drop_last() },
                    ..st
                },
                OutcomeView::Continue,
            ),
            Key::Esc => (ViewState { editing: false, ..st }, OutcomeView::Continue),
            Key::Other => (st, OutcomeView::Continue),
        }
    }
}

/// The state of the view after `keys`, the frames handed back to be sent, in
/// order, and whether the view was left; keys after the one that leaves it
/// are not read.
pub open spec fn key_run(from_id: u64, to_id: u64, st: ViewState, keys: Seq<Key>) -> (ViewState, Seq<Seq<u8>>, bool)
    decreases keys.len(),
{
    if keys.len() == 0 {
        (st, Seq::empty(), false)
    } else {
        let (st1, frames, quit) = key_run(from_id, to_id, st, keys.drop_last());
        if quit {
            (st1, frames, true)
        } else {
            let (st2, out) = key_step(from_id, to_id, st1, keys.last());
            match out {
                OutcomeView::Quit => (st2, frames, true),
                OutcomeView::Send(b) => (st2, frames.push(b), false),
                OutcomeView::Continue => (st2, frames, false),
            }
        }
    }
}

/// Whether every key in `keys` is a character.
pub open spec fn all_chars(keys: Seq<Key>) -> bool {
    forall|i: int| 0 <= i < keys.len() ==> #[trigger] keys[i] is Char
}

/// The characters that `keys` carry, in order.
pub open spec fn chars_of(keys: Seq<Key>) -> Seq<char>
    decreases keys.len(),
{
    if keys.len() == 0 {
        Seq::empty()
    } else {
        let front = chars_of(keys.drop_last());
        match keys.last() {
            Key::Char(c) => front.push(c),
            _ => front,
        }
    }
}

proof fn lemma_typing_fills_input(from_id: u64, to_id: u64, st: ViewState, keys: Seq<Key>)
    requires
        st.editing,
        all_chars(keys),
    ensures
        key_run(from_id, to_id, st, keys) == (
            ViewState { input: st.input + chars_of(keys), ..st },
            Seq::<Seq<u8>>::empty(),
            false,
        ),
    decreases keys.len(),
{
    if keys.len() == 0 {
        assert(st.input + chars_of(keys) =~= st.input);
    } else {
        let front = keys.drop_last();
        assert(all_chars(front)) by {
            assert forall|i: int| 0 <= i < front.len() implies #[trigger] front[i] is Char by {
                assert(front[i] == keys[i]);
            }
        }
        assert(keys[keys.len() - 1] is Char);
        lemma_typing_fills_input(from_id, to_id, st, front);
        let c = keys.last()->Char_0;
        assert(chars_of(keys) == chars_of(front).push(c));
        assert((st.input + chars_of(front)).push(c) =~= st.input + chars_of(keys));
    }
}

/// In editing mode, with nothing typed yet, typing characters and pressing
/// Enter sends exactly one frame, the message of those characters from the
/// user to the other, shows that message, and leaves nothing typed.
pub proof fn lemma_type_and_send(from_id: u64, to_id: u64, st: ViewState, keys: Seq<Key>)
    requires
        st.editing,
        st.input.len() == 0,
        all_chars(keys),
        keys.len() > 0,
    ensures
        ({
            let msg = MessageView { recipient_id: to_id, sender_id: from_id, content: chars_of(keys) };
            key_run(from_id, to_id, st, keys.push(Key::Enter)) == (
                ViewState { editing: true, input: Seq::empty(), shown: st.shown.push(msg) },
                seq![message_bytes(msg)],
                false,
            )
        }),
{
    lemma_typing_fills_input(from_id, to_id, st, keys);
    lemma_chars_of_len(keys);
    assert(keys.push(Key::Enter).drop_last() =~= keys);
    assert(st.input + chars_of(keys) =~= chars_of(keys));
    let msg = MessageView { recipient_id: to_id, sender_id: from_id, content: chars_of(keys) };
    assert(Seq::<Seq<u8>>::empty().push(message_bytes(msg)) =~= seq![message_bytes(msg)]);
}

proof fn lemma_chars_of_len(keys: Seq<Key>)
    requires
        all_chars(keys),
    ensures
        chars_of(keys).len() == keys.len(),
    decreases keys.len(),
{
    if keys.len() > 0 {
        let front = keys.drop_last();
        assert forall|i: int| 0 <= i < front.len() implies #[trigger] front[i] is Char by {
            assert(front[i] == keys[i]);
        }
        assert(keys[keys.len() - 1] is Char);
        lemma_chars_of_len(front);
    }
}

/// Running two runs of keys one after the other is running them joined: the
/// frames of the second follow those of the first, and once the view is left
/// the second run is not read.
pub proof fn lemma_run_concat(from_id: u64, to_id: u64, st: ViewState, first: Seq<Key>, second: Seq<Key>)
    ensures
        ({
            let (st1, frames1, quit1) = key_run(from_id, to_id, st, first);
            let (st2, frames2, quit2) = key_run(from_id, to_id, st1, second);
            key_run(from_id, to_id, st, first + second) == if quit1 {
                (st1, frames1, true)
            } else {
                (st2, frames1 + frames2, quit2)
            }
        }),
    decreases second.len(),
{
    let (st1, frames1, quit1) = key_run(from_id, to_id, st, first);
    if second.len() == 0 {
        assert(first + second =~= first);
        assert(frames1 + Seq::<Seq<u8>>::empty() =~= frames1);
    } else {
        let front = second.drop_last();
        lemma_run_concat(from_id, to_id, st, first, front);
        assert((first + second).drop_last() =~= first + front);
        assert((first + second).last() == second.last());
        if !quit1 {
            let (s2, f2, q2) = key_run(from_id, to_id, st1, front);
            if !q2 {
                let (s3, out) = key_step(from_id, to_id, s2, second.last());
                if let OutcomeView::Send(b) = out {
                    assert((frames1 + f2).push(b) =~= frames1 + f2.push(b));
                }
            }
        }
    }
}

/// Once a run of keys has left the view, keys pressed after it are not
/// read: the view, the frames sent and the exit stay as they were.
pub proof fn lemma_quit_ends_run(from_id: u64, to_id: u64, st: ViewState, keys: Seq<Key>, more: Seq<Key>)
    requires
        key_run(from_id, to_id, st, keys).2,
    ensures
        key_run(from_id, to_id, st, keys + more) == key_run(from_id, to_id, st, keys),
    decreases more.len(),
{
    if more.len() > 0 {
        lemma_quit_ends_run(from_id, to_id, st, keys, more.drop_last());
        assert((keys + more).drop_last() =~= keys + more.drop_last());
    } else {
        assert(keys + more =~= keys);
    }
}

/// Whether the view is editing, and the text typed, before the key at
/// `i` of `keys` (after the first `i` keys), starting from `st`: in normal
/// mode only 'e' starts editing; in editing mode a character is added to
/// the text, Backspace removes its last character, Enter empties it (a
/// non-empty text is sent), Esc returns to normal mode.
pub open spec fn typing_at(st: ViewState, keys: Seq<Key>, i: nat) -> (bool, Seq<char>)
    decreases i,
{
    if i == 0 {
        (st.editing, st.input)
    } else {
        let (editing, text) = typing_at(st, keys, (i - 1) as nat);
        let key = keys[i - 1];
        if !editing {
            (key == Key::Char('e'), text)
        } else {
            match key {
                Key::Char(c) => (true, text.push(c)),
                Key::Backspace => (true, if text.len() == 0 { text } else { text.drop_last() }),
                Key::Enter => (true, Seq::empty()),
                Key::Esc => (false, text),
                Key::Other => (true, text),
            }
        }
    }
}

/// Whether the key at `i` sends a message: Enter in editing mode with text
/// typed.
pub open spec fn sends_at(st: ViewState, keys: Seq<Key>, i: nat) -> bool {
    typing_at(st, keys, i).0 && keys[i as int] == Key::Enter && typing_at(st, keys, i).1.len() > 0
}

/// Whether the key at `i` leaves the view: 'q' or Esc in normal mode.
pub open spec fn quits_at(st: ViewState, keys: Seq<Key>, i: nat) -> bool {
    !typing_at(st, keys, i).0 && (keys[i as int] == Key::Char('q') || keys[i as int] == Key::Esc)
}

/// The frames the first `n` keys send, in order: for each key that sends,
/// the message of the text typed before it, from `from_id` to `to_id`.
pub open spec fn frames_sent(from_id: u64, to_id: u64, st: ViewState, keys: Seq<Key>, n: nat) -> Seq<Seq<u8>>
    decreases n,
{
    if n == 0 {
        Seq::empty()
    } else {
        let before = frames_sent(from_id, to_id, st, keys, (n - 1) as nat);
        let i = (n - 1) as nat;
        if sends_at(st, keys, i) {
            before.push(
                message_bytes(
                    MessageView { recipient_id: to_id, sender_id: from_id, content: typing_at(st, keys, i).1 },
                ),
            )
        } else {
            before
        }
    }
}

proof fn lemma_run_prefix(from_id: u64, to_id: u64, st: ViewState, keys: Seq<Key>, n: nat)
    requires
        n <= keys.len(),
        forall|i: nat| i < n ==> !#[trigger] quits_at(st, keys, i),
    ensures
        ({
            let (st1, frames, quit) = key_run(from_id, to_id, st, keys.take(n as int));
            &&& st1.editing == typing_at(st, keys, n).0
            &&& st1.input == typing_at(st, keys, n).1
            &&& frames == frames_sent(from_id, to_id, st, keys, n)
            &&& !quit
        }),
    decreases n,
{
    if n == 0 {
        assert(keys.take(0) =~= Seq::<Key>::empty());
    } else {
        let m = (n - 1) as nat;
        assert(!quits_at(st, keys, m));
        lemma_run_prefix(from_id, to_id, st, keys, m);
        assert(keys.take(n as int).drop_last() =~= keys.take(m as int));
        assert(keys.take(n as int).last() == keys[m as int]);
    }
}

/// What any run of keys sends. While no key has left the view, the frames
/// sent are, in order, the messages from `from_id` to `to_id` of the text
/// typed before each Enter pressed in editing mode with text typed, where
/// the text is built from the characters typed and Backspaces since the
/// last send; the view is left at the first 'q' or Esc in normal mode, and
/// the keys after it are not read.
pub proof fn lemma_key_run_sends(from_id: u64, to_id: u64, st: ViewState, keys: Seq<Key>)
    ensures
        (forall|i: nat| i < keys.len() ==> !#[trigger] quits_at(st, keys, i)) ==> ({
            let (st1, frames, quit) = key_run(from_id, to_id, st, keys);
            &&& st1.editing == typing_at(st, keys, keys.len()).0
            &&& st1.input == typing_at(st, keys, keys.len()).1
            &&& frames == frames_sent(from_id, to_id, st, keys, keys.len())
            &&& !quit
        }),
        forall|q: nat|
            q < keys.len() && #[trigger] quits_at(st, keys, q) && (forall|i: nat|
                i < q ==> !#[trigger] quits_at(st, keys, i)) ==> {
                let (_st1, frames, quit) = key_run(from_id, to_id, st, keys);
                &&& frames == frames_sent(from_id, to_id, st, keys, q)
                &&& quit
            },
{
    if forall|i: nat| i < keys.len() ==> !#[trigger] quits_at(st, keys, i) {
        lemma_run_prefix(from_id, to_id, st, keys, keys.len());
        assert(keys.take(keys.len() as int) =~= keys);
    }
    assert forall|q: nat|
        q < keys.len() && #[trigger] quits_at(st, keys, q) && (forall|i: nat|
            i < q ==> !#[trigger] quits_at(st, keys, i)) implies ({
            let (_st1, frames, quit) = key_run(from_id, to_id, st, keys);
            &&& frames == frames_sent(from_id, to_id, st, keys, q)
            &&& quit
        }) by {
        lemma_run_prefix(from_id, to_id, st, keys, q);
        let head = keys.take(q as int + 1);
        assert(head.drop_last() =~= keys.take(q as int));
        assert(head.last() == keys[q as int]);
        assert(key_run(from_id, to_id, st, head).2);
        assert(key_run(from_id, to_id, st, head).1 == frames_sent(from_id, to_id, st, keys, q));
        lemma_quit_ends_run(from_id, to_id, st, head, keys.skip(q as int + 1));
        assert(head + keys.skip(q as int + 1) =~= keys);
    }
}

/// No key removes or changes a message shown. Only Enter in editing mode
/// with text typed sends, and it shows exactly the message it sends: the
/// typed text from `from_id` to `to_id`, after which nothing is typed;
/// every other key shows what was shown before.
pub proof fn lemma_key_keeps_shown(from_id: u64, to_id: u64, st: ViewState, key: Key)
    ensures
        ({
            let (st2, out) = key_step(from_id, to_id, st, key);
            let msg = MessageView { recipient_id: to_id, sender_id: from_id, content: st.input };
            &&& (out is Send) == (st.editing && key == Key::Enter && st.input.len() > 0)
            &&& out is Send ==> st2.shown == st.shown.push(msg) && out == OutcomeView::Send(message_bytes(msg))
                && st2.input.len() == 0 && st2.editing
            &&& !(out is Send) ==> st2.shown == st.shown
        }),
{
}

/// Over any run of keys the messages shown before stay shown, in place, and
/// after them come exactly the messages sent, in the order of their frames.
pub proof fn lemma_run_keeps_shown(from_id: u64, to_id: u64, st: ViewState, keys: Seq<Key>)
    ensures
        ({
            let (st1, frames, _quit) = key_run(from_id, to_id, st, keys);
            &&& st1.shown.len() == st.shown.len() + frames.len()
            &&& st1.shown.take(st.shown.len() as int) == st.shown
            &&& forall|k: int| 0 <= k < frames.len() ==> #[trigger] frames[k] == message_bytes(
                st1.shown[st.shown.len() + k],
            )
        }),
    decreases keys.len(),
{
    if keys.len() > 0 {
        lemma_run_keeps_shown(from_id, to_id, st, keys.drop_last());
        let (s1, f1, q1) = key_run(from_id, to_id, st, keys.drop_last());
        if !q1 {
            lemma_key_keeps_shown(from_id, to_id, s1, keys.last());
            let (s2, out) = key_step(from_id, to_id, s1, keys.last());
            if out is Send {
                let msg = MessageView { recipient_id: to_id, sender_id: from_id, content: s1.input };
                assert(s2.shown.take(st.shown.len() as int) =~= s1.shown.take(st.shown.len() as int));
                let f2 = f1.push(message_bytes(msg));
                assert forall|k: int| 0 <= k < f2.len() implies #[trigger] f2[k] == message_bytes(
                    s2.shown[st.shown.len() + k],
                ) by {
                    if k < f1.len() {
                        assert(f2[k] == f1[k]);
                        assert(s2.shown[st.shown.len() + k] == s1.shown[st.shown.len() + k]);
                    }
                }
            }
        }
    }
}

/// The chat view: the two users, the text being typed, the messages shown
/// and the input mode.
pub struct TuiApp {
    from_id: u64,
    to_id: u64,
    input: String,
    messages: Vec<ClientMessage>,
    input_mode: InputMode,
}

/// The part of the view that keys change.
pub open spec fn view_state(app: TuiApp) -> ViewState {
    ViewState { editing: app.editing(), input: app.input_text(), shown: app.shown() }
}

impl TuiApp {
    pub closed spec fn from_id(&self) -> u64 {
        self.from_id
    }

    pub closed spec fn to_id(&self) -> u64 {
        self.to_id
    }

    /// The text being typed.
    pub closed spec fn input_text(&self) -> Seq<char> {
        self.input@
    }

    /// The messages shown, oldest first.
    pub closed spec fn shown(&self) -> Seq<MessageView> {
        message_views(self.messages@)
    }

    pub closed spec fn editing(&self) -> bool {
        self.input_mode is Editing
    }

    /// A chat view from `from_id` to `to_id`, in editing mode, with nothing
    /// typed and no messages.
    pub fn new(from_id: u64, to_id: u64) -> (r: TuiApp)
        ensures
            r.from_id() == from_id,
            r.to_id() == to_id,
            r.input_text() == Seq::<char>::empty(),
            r.shown() == Seq::<MessageView>::empty(),
            r.editing(),
    {
        TuiApp {
            from_id,
            to_id,
            input: String::new(),
            messages: Vec::new(),
            input_mode: InputMode::Editing,
        }
    }

    /// Applies a key. In normal mode 'e' starts editing and 'q' or Esc
    /// quits. In editing mode characters are typed, Backspace erases the
    /// last one, Esc returns to normal mode, and Enter sends the typed text,
    /// if there is any, as a message to the other user: the text is cleared,
    /// the message is shown, and its frame is handed back to be sent.
    pub fn handle_key(&mut self, key: Key) -> (r: KeyOutcome)
        ensures
            final(self).from_id() == old(self).from_id(),
            final(self).to_id() == old(self).to_id(),
            ({
                let (st, out) = key_step(old(self).from_id(), old(self).to_id(), view_state(*old(self)), key);
                &&& view_state(*final(self)) == st
                &&& outcome_view(r) == out
            }),
    {
        match self.input_mode {
            InputMode::Normal => match key {
                Key::Char(c) => {
                    if c == 'e' {
                        self.input_mode = InputMode::Editing;
                        KeyOutcome::Continue
                    } else if c == 'q' {
                        KeyOutcome::Quit
                    } else {
                        KeyOutcome::Continue
                    }
                },
                Key::Esc => KeyOutcome::Quit,
                _ => KeyOutcome::Continue,
            },
            InputMode::Editing => match key {
                Key::Enter => {
                    if !self.input.as_str().is_empty() {
                        let mut content = String::new();
                        std::mem::swap(&mut content, &mut self.input);
                        let msg = ClientMessage::new(self.from_id, self.to_id, content);
                        match msg.encode() {
                            Ok(bytes) => {
                                self.messages.push(msg);
                                proof {
                                    assert(message_views(self.messages@) =~= message_views(
                                        old(self).messages@,
                                    ).push(msg@));
                                }
                                KeyOutcome::Send(bytes)
                            },
                            Err(_) => KeyOutcome::Continue,
                        }
                    } else {
                        KeyOutcome::Continue
                    }
                },
                Key::Char(c) => {
                    push_char(&mut self.input, c);
                    KeyOutcome::Continue
                },
                Key::Backspace => {
                    pop_char(&mut self.input);
                    KeyOutcome::Continue
                },
                Key::Esc => {
                    self.input_mode = InputMode::Normal;
                    KeyOutcome::Continue
                },
                Key::Other => KeyOutcome::Continue,
            },
        }
    }

    /// Shows a message that arrived from the server.
    pub fn receive(&mut self, msg: ClientMessage)
        ensures
            final(self).shown() == old(self).shown().push(msg@),
            final(self).input_text() == old(self).input_text(),
            final(self).editing() == old(self).editing(),
            final(self).from_id() == old(self).from_id(),
            final(self).to_id() == old(self).to_id(),
    {
        self.messages.push(msg);
        proof {
            assert(message_views(self.messages@) =~= message_views(old(self).messages@).push(msg@));
        }
    }

    /// The text being typed.
    pub fn input(&self) -> (r: &str)
        ensures
            r@ == self.input_text(),
    {
        self.input.as_str()
    }

    /// The title of the input box, which tells the mode and its keys.
    pub fn mode_title(&self) -> (r: &str)
        ensures
            !self.editing() ==> r@ == " (NORMAL) - Press 'e' to edit, 'q' to quit "@,
            self.editing() ==> r@ == " (EDITING) - Press 'Esc' to stop editing, 'Enter' to send "@,
    {
        match self.input_mode {
            InputMode::Normal => " (NORMAL) - Press 'e' to edit, 'q' to quit ",
            InputMode::Editing => " (EDITING) - Press 'Esc' to stop editing, 'Enter' to send ",
        }
    }

    /// The screen of the given size split into the message box above and
    /// the input box, three rows high, below.
    pub fn screen_areas(screen: &Area) -> (r: (Area, Area))
        ensures
            vertical_split(screen.x, screen.y, screen.width, screen.height, 0, 3) == (
                (r.0.x, r.0.y, r.0.width, r.0.height),
                (r.1.x, r.1.y, r.1.width, r.1.height),
            ),
    {
        split_vertical(screen, 0, 3)
    }

    /// The inside of the message box `chat`, without its border, cut as a
    /// terminal rectangle is cut so that it ends within 16-bit cells.
    pub fn inner_area(chat: &Area) -> (r: Area)
        requires
            chat.width >= 2,
            chat.height >= 2,
            chat.x < u16::MAX,
            chat.y < u16::MAX,
        ensures
            r.x == chat.x + 1,
            r.y == chat.y + 1,
            r.width == (if chat.width - 2 > u16::MAX - (chat.x + 1) {
                u16::MAX - (chat.x + 1)
            } else {
                chat.width - 2
            }),
            r.height == (if chat.height - 2 > u16::MAX - (chat.y + 1) {
                u16::MAX - (chat.y + 1)
            } else {
                chat.height - 2
            }),
    {
        let x = chat.x + 1;
        let y = chat.y + 1;
        let max_width = u16::MAX - x;
        let max_height = u16::MAX - y;
        let width = if chat.width - 2 > max_width { max_width } else { chat.width - 2 };
        let height = if chat.height - 2 > max_height { max_height } else { chat.height - 2 };
        Area { x, y, width, height }
    }

    /// Where each shown message is drawn inside `area`, newest first.
    pub fn message_layout(&self, area: &Area) -> (r: Vec<Bubble>)
        requires
            layout_plan(*area, self.shown(), self.from_id()) is Some,
        ensures
            layout_plan(*area, self.shown(), self.from_id()) == Some(r@),
    {
        MessageRenderer::layout(area, &self.messages, self.from_id)
    }

    /// Whether the shown messages can be laid out inside `area`.
    pub fn layout_fits(&self, area: &Area) -> (r: bool)
        ensures
            r == layout_plan(*area, self.shown(), self.from_id()) is Some,
    {
        MessageRenderer::fits(area, &self.messages, self.from_id)
    }

    /// The message at `index` of those shown.
    pub fn message(&self, index: usize) -> (r: &ClientMessage)
        requires
            index < self.shown().len(),
        ensures
            r@ == self.shown()[index as int],
    {
        &self.messages[index]
    }
}

} // verus!
