//! The edge-triggered input cache: raw terminal events, decoded to plain
//! values by the embedder, are folded once per frame into queryable
//! press/release state. `Up` edges are visible for exactly one frame and then
//! expire; `Down` edges persist until a release is observed.

use vstd::prelude::*;

verus! {

/// The edge classification of a key or mouse button: the most recent
/// transition, not a continuous hold state.
#[derive(Clone, Copy, PartialEq, Eq, Structural, Debug)]
pub enum InputEvent {
    Down,
    Up,
}

/// The three standard mouse buttons.
#[derive(Clone, Copy, PartialEq, Eq, Structural, Debug)]
pub enum MouseButton {
    Left,
    Right,
    Middle,
}

/// What a raw mouse event did. Any movement (including drags and scrolls)
/// that is not a press or release is reported as `Moved`.
#[derive(Clone, Copy, PartialEq, Eq, Structural, Debug)]
pub enum MouseEventKind {
    Down(MouseButton),
    Up(MouseButton),
    Moved,
}

/// One raw terminal event, already decoded to plain values by the embedder.
/// Key codes are the unicode scalar value for character keys; the embedder
/// assigns codes above the unicode range to the remaining keys.
#[derive(Clone, Copy, PartialEq, Eq, Structural, Debug)]
pub enum RawEvent {
    Key { code: u32, kind: InputEvent },
    Mouse { column: u16, row: u16, kind: MouseEventKind },
    Resize { width: u16, height: u16 },
}

/// Mathematical model of an [`Input`].
#[verifier::ext_equal]
pub struct InputView {
    pub keys: Seq<(u32, InputEvent)>,
    pub resize: Option<(u16, u16)>,
    pub mouse_position: (u16, u16),
    pub left: Option<InputEvent>,
    pub middle: Option<InputEvent>,
    pub right: Option<InputEvent>,
}

/// The edge state recorded for key `code`: the value of its first entry, or
/// `None` when the key is absent.
pub open spec fn key_state(keys: Seq<(u32, InputEvent)>, code: u32) -> Option<InputEvent>
    decreases keys.len(),
{
    if keys.len() == 0 {
        None
    } else if keys[0].0 == code {
        Some(keys[0].1)
    } else {
        key_state(keys.drop_first(), code)
    }
}

impl InputView {
    /// The input invariant: at most one entry per key.
    pub open spec fn wf(self) -> bool {
        forall|i: int, j: int|
            0 <= i < j < self.keys.len() ==> self.keys[i].0 != self.keys[j].0
    }

    /// The edge state recorded for a mouse button.
    pub open spec fn button(self, b: MouseButton) -> Option<InputEvent> {
        match b {
            MouseButton::Left => self.left,
            MouseButton::Right => self.right,
            MouseButton::Middle => self.middle,
        }
    }
}

/// An edge one frame later when no new event arrives for it: `Up` expires,
/// `Down` persists.
pub open spec fn aged(st: Option<InputEvent>) -> Option<InputEvent> {
    if st == Some(InputEvent::Up) {
        None
    } else {
        st
    }
}

/// The edge state of key `code` after one `update` that observed `event`.
pub open spec fn key_after(v: InputView, event: Option<RawEvent>, code: u32) -> Option<InputEvent> {
    match event {
        Some(RawEvent::Key { code: c, kind }) => if c == code {
            Some(kind)
        } else {
            aged(key_state(v.keys, code))
        },
        _ => aged(key_state(v.keys, code)),
    }
}

/// The edge state of button `b` after one `update` that observed `event`.
pub open spec fn button_after(v: InputView, event: Option<RawEvent>, b: MouseButton) -> Option<InputEvent> {
    match event {
        Some(RawEvent::Mouse { kind: MouseEventKind::Down(b2), .. }) => if b2 == b {
            Some(InputEvent::Down)
        } else {
            aged(v.button(b))
        },
        Some(RawEvent::Mouse { kind: MouseEventKind::Up(b2), .. }) => if b2 == b {
            Some(InputEvent::Up)
        } else {
            aged(v.button(b))
        },
        _ => aged(v.button(b)),
    }
}

/// The last known mouse position after one `update` that observed `event`:
/// any mouse event, movement included, refreshes it.
pub open spec fn mouse_position_after(v: InputView, event: Option<RawEvent>) -> (u16, u16) {
    match event {
        Some(RawEvent::Mouse { column, row, .. }) => (column, row),
        _ => v.mouse_position,
    }
}

/// The pending resize after one `update`: it is valid for one frame only, so
/// it is exactly the resize observed this frame, if any.
pub open spec fn resize_after(event: Option<RawEvent>) -> Option<(u16, u16)> {
    match event {
        Some(RawEvent::Resize { width, height }) => Some((width, height)),
        _ => None,
    }
}

/// The per-frame input cache. The embedder polls the terminal for at most one
/// event per frame and hands it to [`Input::update`]; queries then answer
/// from the cached edge states.
pub struct Input {
    keymap: Vec<(u32, InputEvent)>,
    resize: Option<(u16, u16)>,
    mouse_position: (u16, u16),
    mouse_left: Option<InputEvent>,
    mouse_middle: Option<InputEvent>,
    mouse_right: Option<InputEvent>,
}

impl View for Input {
    type V = InputView;

    closed spec fn view(&self) -> InputView {
        InputView {
            keys: self.keymap@,
            resize: self.resize,
            mouse_position: self.mouse_position,
            left: self.mouse_left,
            middle: self.mouse_middle,
            right: self.mouse_right,
        }
    }
}

/// `key_state` looks at the whole sequence: appending an entry only matters
/// for a key that had none.
proof fn lemma_key_state_push(s: Seq<(u32, InputEvent)>, p: (u32, InputEvent), code: u32)
    ensures
        key_state(s.push(p), code) == (if key_state(s, code) is Some {
            key_state(s, code)
        } else if p.0 == code {
            Some(p.1)
        } else {
            None::<InputEvent>
        }),
    decreases s.len(),
{
    if s.len() == 0 {
        assert(s.push(p).len() == 1);
        assert(s.push(p)[0] == p);
        assert(key_state(s, code) is None);
        if p.0 == code {
            assert(key_state(s.push(p), code) == Some(p.1));
        } else {
            assert(s.push(p).drop_first() =~= Seq::<(u32, InputEvent)>::empty());
            assert(key_state(s.push(p).drop_first(), code) is None);
            assert(key_state(s.push(p), code) is None);
        }
    } else {
        assert(s.push(p)[0] == s[0]);
        assert(s.push(p).drop_first() =~= s.drop_first().push(p));
        lemma_key_state_push(s.drop_first(), p, code);
        if s[0].0 == code {
            assert(key_state(s.push(p), code) == Some(s[0].1));
            assert(key_state(s, code) == Some(s[0].1));
        } else {
            assert(key_state(s.push(p), code) == key_state(s.drop_first().push(p), code));
            assert(key_state(s, code) == key_state(s.drop_first(), code));
        }
    }
}

/// A key is absent exactly when no entry carries its code.
proof fn lemma_key_state_none(s: Seq<(u32, InputEvent)>, code: u32)
    ensures
        (key_state(s, code) is None) <==> (forall|j: int| 0 <= j < s.len() ==> s[j].0 != code),
    decreases s.len(),
{
    if s.len() > 0 {
        lemma_key_state_none(s.drop_first(), code);
        assert(forall|j: int| 0 <= j < s.drop_first().len() ==> s.drop_first()[j] == s[j + 1]);
        if s[0].0 == code {
            assert(key_state(s, code) == Some(s[0].1));
        } else {
            assert(key_state(s, code) == key_state(s.drop_first(), code));
            if key_state(s, code) is None {
                assert forall|j: int| 0 <= j < s.len() implies s[j].0 != code by {
                    if j > 0 {
                        assert(s.drop_first()[j - 1].0 != code);
                    }
                }
            } else {
                if forall|j: int| 0 <= j < s.len() ==> s[j].0 != code {
                    assert forall|j: int| 0 <= j < s.drop_first().len() implies s.drop_first()[j].0
                        != code by {
                        assert(s[j + 1].0 != code);
                    }
                    assert(key_state(s.drop_first(), code) is None);
                }
            }
        }
    }
}

/// Replacing the entry that carries `p.0` changes that key's state and no
/// other, provided keys are unique.
proof fn lemma_key_state_update(s: Seq<(u32, InputEvent)>, j: int, p: (u32, InputEvent), code: u32)
    requires
        0 <= j < s.len(),
        s[j].0 == p.0,
        forall|a: int, b: int| 0 <= a < b < s.len() ==> s[a].0 != s[b].0,
    ensures
        key_state(s.update(j, p), code) == (if code == p.0 {
            Some(p.1)
        } else {
            key_state(s, code)
        }),
    decreases s.len(),
{
    if j == 0 {
        assert(s.update(0, p)[0] == p);
        assert(s.update(0, p).drop_first() =~= s.drop_first());
    } else {
        assert(s[0].0 != p.0);
        assert(s.update(j, p)[0] == s[0]);
        assert(s.update(j, p).drop_first() =~= s.drop_first().update(j - 1, p));
        assert(forall|a: int, b: int|
            0 <= a < b < s.drop_first().len() ==> s.drop_first()[a].0 != s.drop_first()[b].0);
        lemma_key_state_update(s.drop_first(), j - 1, p, code);
    }
}

/// Ages one edge state: `Up` expires, everything else is kept.
fn age(st: Option<InputEvent>) -> (r: Option<InputEvent>)
    ensures
        r == aged(st),
{
    match st {
        Some(InputEvent::Up) => None,
        other => other,
    }
}

impl Input {
    /// A cache with no recorded edges, the mouse at the origin and no pending
    /// resize.
    pub fn new() -> (s: Input)
        ensures
            s@.wf(),
            s@.keys.len() == 0,
            s@.resize is None,
            s@.mouse_position == (0u16, 0u16),
            s@.left is None,
            s@.middle is None,
            s@.right is None,
    {
        Input {
            keymap: Vec::new(),
            resize: None,
            mouse_position: (0, 0),
            mouse_left: None,
            mouse_middle: None,
            mouse_right: None,
        }
    }

    /// The recorded key edges, one entry per key.
    pub fn keymap(&self) -> (r: &Vec<(u32, InputEvent)>)
        ensures
            r@ == self@.keys,
    {
        &self.keymap
    }

    /// The edge state recorded for `code`, by linear search.
    fn lookup(&self, code: u32) -> (r: Option<InputEvent>)
        ensures
            r == key_state(self@.keys, code),
    {
        let n: usize = self.keymap.len();
        let mut i: usize = 0;
        proof {
            assert(self@.keys.skip(0) =~= self@.keys);
        }
        while i < n
            invariant
                i <= n,
                key_state(self@.keys, code) == key_state(self@.keys.skip(i as int), code),
            decreases n - i,
        {
            let entry = self.keymap[i];
            proof {
                assert(self@.keys.skip(i as int)[0] == self@.keys[i as int]);
                assert(self@.keys.skip(i as int).drop_first() =~= self@.keys.skip(i as int + 1));
            }
            if entry.0 == code {
                return Some(entry.1);
            }
            i = i + 1;
        }
        proof {
            assert(self@.keys.skip(n as int) =~= Seq::<(u32, InputEvent)>::empty());
        }
        None
    }

    /// True iff the key's edge state this frame is exactly `Down`.
    pub fn is_key_down(&self, key: char) -> (r: bool)
        ensures
            r == (key_state(self@.keys, key as u32) == Some(InputEvent::Down)),
    {
        match self.lookup(key as u32) {
            Some(InputEvent::Down) => true,
            _ => false,
        }
    }

    /// True iff the key's edge state this frame is exactly `Up`.
    pub fn is_key_up(&self, key: char) -> (r: bool)
        ensures
            r == (key_state(self@.keys, key as u32) == Some(InputEvent::Up)),
    {
        match self.lookup(key as u32) {
            Some(InputEvent::Up) => true,
            _ => false,
        }
    }

    /// True iff the button's edge state this frame is exactly `Down`.
    pub fn is_mouse_down(&self, button: MouseButton) -> (r: bool)
        ensures
            r == (self@.button(button) == Some(InputEvent::Down)),
    {
        let st = match button {
            MouseButton::Left => self.mouse_left,
            MouseButton::Right => self.mouse_right,
            MouseButton::Middle => self.mouse_middle,
        };
        match st {
            Some(InputEvent::Down) => true,
            _ => false,
        }
    }

    /// True iff the button's edge state this frame is exactly `Up`.
    pub fn is_mouse_up(&self, button: MouseButton) -> (r: bool)
        ensures
            r == (self@.button(button) == Some(InputEvent::Up)),
    {
        let st = match button {
            MouseButton::Left => self.mouse_left,
            MouseButton::Right => self.mouse_right,
            MouseButton::Middle => self.mouse_middle,
        };
        match st {
            Some(InputEvent::Up) => true,
            _ => false,
        }
    }

    /// The last known absolute mouse position.
    pub fn mouse_position(&self) -> (r: (u16, u16))
        ensures
            r == self@.mouse_position,
    {
        self.mouse_position
    }

    /// The resize pending this frame only, else `None`.
    pub fn resized(&self) -> (r: Option<(u16, u16)>)
        ensures
            r == self@.resize,
    {
        self.resize
    }

    /// Records `kind` for `code`, replacing any previous edge.
    fn keymap_insert(&mut self, code: u32, kind: InputEvent)
        requires
            old(self)@.wf(),
        ensures
            final(self)@.wf(),
            forall|c: u32|
                key_state(final(self)@.keys, c) == (if c == code {
                    Some(kind)
                } else {
                    key_state(old(self)@.keys, c)
                }),
            final(self)@.resize == old(self)@.resize,
            final(self)@.mouse_position == old(self)@.mouse_position,
            final(self)@.left == old(self)@.left,
            final(self)@.middle == old(self)@.middle,
            final(self)@.right == old(self)@.right,
    {
        let n: usize = self.keymap.len();
        let mut i: usize = 0;
        while i < n
            invariant
                i <= n,
                *self == *old(self),
                n == self@.keys.len(),
                forall|j: int| 0 <= j < i ==> self@.keys[j].0 != code,
            decreases n - i,
        {
            if self.keymap[i].0 == code {
                self.keymap[i] = (code, kind);
                proof {
                    assert forall|c: u32|
                        key_state(self@.keys, c) == (if c == code {
                            Some(kind)
                        } else {
                            key_state(old(self)@.keys, c)
                        }) by {
                        lemma_key_state_update(old(self)@.keys, i as int, (code, kind), c);
                    }
                }
                return;
            }
            i = i + 1;
        }
        proof {
            lemma_key_state_none(self@.keys, code);
        }
        self.keymap.push((code, kind));
        proof {
            assert(self@.keys == old(self)@.keys.push((code, kind)));
            assert forall|c: u32|
                key_state(self@.keys, c) == (if c == code {
                    Some(kind)
                } else {
                    key_state(old(self)@.keys, c)
                }) by {
                lemma_key_state_push(old(self)@.keys, (code, kind), c);
            }
            lemma_key_state_none(old(self)@.keys, code);
        }
    }

    /// Ages the cached edges, clears the pending resize, then folds in the
    /// event observed this frame, if any: `Up` edges recorded last frame
    /// expire, `Down` edges persist, and a new key, mouse or resize event
    /// overrides the entry it concerns.
    pub fn update(&mut self, event: Option<RawEvent>)
        requires
            old(self)@.wf(),
        ensures
            final(self)@.wf(),
            forall|c: u32| key_state(final(self)@.keys, c) == key_after(old(self)@, event, c),
            forall|b: MouseButton| final(self)@.button(b) == button_after(old(self)@, event, b),
            final(self)@.mouse_position == mouse_position_after(old(self)@, event),
            final(self)@.resize == resize_after(event),
    {
        self.mouse_left = age(self.mouse_left);
        self.mouse_middle = age(self.mouse_middle);
        self.mouse_right = age(self.mouse_right);

        let n: usize = self.keymap.len();
        let ghost orig = self@.keys;
        let mut kept: Vec<(u32, InputEvent)> = Vec::new();
        let mut i: usize = 0;
        while i < n
            invariant
                i <= n,
                self@.keys == orig,
                forall|a: int, b: int| 0 <= a < b < kept@.len() ==> kept@[a].0 != kept@[b].0,
                forall|c: u32| key_state(kept@, c) == aged(key_state(orig.take(i as int), c)),
            decreases n - i,
        {
            let entry = self.keymap[i];
            let ghost before = kept@;
            proof {
                assert(orig.take(i as int + 1) =~= orig.take(i as int).push(orig[i as int]));
                lemma_key_state_none(orig.take(i as int), entry.0);
                lemma_key_state_none(before, entry.0);
            }
            match entry.1 {
                InputEvent::Up => {
                    proof {
                        assert forall|c: u32|
                            key_state(kept@, c) == aged(key_state(orig.take(i as int + 1), c)) by {
                            lemma_key_state_push(orig.take(i as int), orig[i as int], c);
                        }
                    }
                }
                InputEvent::Down => {
                    kept.push(entry);
                    proof {
                        assert forall|c: u32|
                            key_state(kept@, c) == aged(key_state(orig.take(i as int + 1), c)) by {
                            lemma_key_state_push(orig.take(i as int), orig[i as int], c);
                            lemma_key_state_push(before, entry, c);
                        }
                    }
                }
            }
            i = i + 1;
        }
        proof {
            assert(orig.take(n as int) =~= orig);
        }
        self.keymap = kept;

        self.resize = None;

        match event {
            None => {}
            Some(RawEvent::Key { code, kind }) => {
                self.keymap_insert(code, kind);
            }
            Some(RawEvent::Mouse { column, row, kind }) => {
                self.mouse_position = (column, row);
                match kind {
                    MouseEventKind::Down(b) => self.set_button(b, InputEvent::Down),
                    MouseEventKind::Up(b) => self.set_button(b, InputEvent::Up),
                    MouseEventKind::Moved => {}
                }
            }
            Some(RawEvent::Resize { width, height }) => {
                self.resize = Some((width, height));
            }
        }
    }

    /// Records an edge for one mouse button.
    fn set_button(&mut self, b: MouseButton, kind: InputEvent)
        ensures
            forall|b2: MouseButton|
                final(self)@.button(b2) == (if b2 == b {
                    Some(kind)
                } else {
                    old(self)@.button(b2)
                }),
            final(self)@.keys == old(self)@.keys,
            final(self)@.resize == old(self)@.resize,
            final(self)@.mouse_position == old(self)@.mouse_position,
    {
        match b {
            MouseButton::Left => self.mouse_left = Some(kind),
            MouseButton::Right => self.mouse_right = Some(kind),
            MouseButton::Middle => self.mouse_middle = Some(kind),
        }
    }
}

/// Edge decay of a single key, frame by frame: a press makes the key `Down`
/// on the next frame and it stays `Down` through eventless frames; a release
/// makes it `Up` for exactly one frame, after which the key is absent.
pub proof fn lemma_key_edge_decay(v: InputView, k: u32)
    ensures
        key_after(v, Some(RawEvent::Key { code: k, kind: InputEvent::Down }), k) == Some(InputEvent::Down),
        key_state(v.keys, k) == Some(InputEvent::Down) ==> key_after(v, None, k) == Some(InputEvent::Down),
        key_after(v, Some(RawEvent::Key { code: k, kind: InputEvent::Up }), k) == Some(InputEvent::Up),
        key_state(v.keys, k) == Some(InputEvent::Up) ==> key_after(v, None, k) is None,
        key_state(v.keys, k) is None ==> key_after(v, None, k) is None,
{
}

/// The same decay for a mouse button.
pub proof fn lemma_button_edge_decay(v: InputView, b: MouseButton)
    ensures
        forall|col: u16, row: u16|
            button_after(v, Some(RawEvent::Mouse { column: col, row: row, kind: MouseEventKind::Down(b) }), b)
                == Some(InputEvent::Down),
        v.button(b) == Some(InputEvent::Down) ==> button_after(v, None, b) == Some(InputEvent::Down),
        v.button(b) == Some(InputEvent::Up) ==> button_after(v, None, b) is None,
        v.button(b) is None ==> button_after(v, None, b) is None,
{
}

} // verus!
