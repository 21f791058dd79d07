//! The key-sequence recognizer: raw input bytes are matched incrementally
//! against a static table of single-byte and multi-byte key bindings, and a
//! logical command is emitted only on a complete match.

use vstd::prelude::*;

verus! {

/// Messages passed from the controller to the model, indicating user
/// requests.
#[derive(Clone, Copy, Debug, PartialEq)]
pub enum ControllerMsg {
    /// Pause the metronome if it is running; do nothing if it is already
    /// paused.
    Pause,
    /// Play the metronome if it is paused; do nothing if it is already
    /// running.
    Play,
    /// Toggle the metronome between a playing and paused state.
    Toggle,
    /// Adjust the volume by the given number of volume steps.
    AdjustVolume(i32),
    /// Adjust the tempo by the given number of beats per minute.
    AdjustTempo(i32),
    /// Synchronizes the metronome, so a downbeat occurs the instant this
    /// message is received.
    Sync,
    /// Enters tap mode.
    TapMode,
    /// Enters set mode (for setting the tempo), optionally carrying a
    /// first digit to input.
    SetMode(Option<u32>),
    /// Exits the program.
    Quit,
}

/// A mapping from a key (vector of input codes) to some functionality.
#[derive(Debug, PartialEq)]
pub struct Binding(pub Vec<u8>, pub ControllerMsg);

/// Possible states of the key binding engine.
#[derive(Debug, PartialEq)]
pub enum BindingState<'a> {
    /// The characters in the queue are not a valid key binding, nor are
    /// they the first part of a valid key binding.
    Invalid,
    /// The characters in the queue form the beginning of one or more
    /// keybindings, but we don't have a complete key binding yet.
    Start,
    /// The characters in the queue are a perfect match for a key binding.
    Complete(&'a Binding),
}

/// Index of the first binding (at or after `i`) whose byte sequence is
/// exactly `q`; -1 where there is none.
pub open spec fn first_exact(bs: Seq<Binding>, q: Seq<u8>, i: nat) -> int
    decreases bs.len() - i,
{
    if i >= bs.len() {
        -1
    } else if bs[i as int].0@ == q {
        i as int
    } else {
        first_exact(bs, q, i + 1)
    }
}

/// Whether `q` is a prefix of some binding's byte sequence.
pub open spec fn any_prefix(bs: Seq<Binding>, q: Seq<u8>) -> bool {
    exists|i: int| 0 <= i < bs.len() && q.is_prefix_of(#[trigger] bs[i].0@)
}

/// Two byte slices hold the same bytes.
fn eq_bytes(a: &[u8], b: &[u8]) -> (r: bool)
    ensures
        r <==> a@ == b@,
{
    let n = a.len();
    if n != b.len() {
        return false;
    }
    for i in 0..n
        invariant
            n == a@.len() == b@.len(),
            forall|j: int| 0 <= j < i ==> a@[j] == b@[j],
    {
        if a[i] != b[i] {
            return false;
        }
    }
    proof {
        assert(a@ =~= b@);
    }
    true
}

/// Whether `big` begins with the bytes of `small`.
fn starts_with_bytes(big: &[u8], small: &[u8]) -> (r: bool)
    ensures
        r <==> small@.is_prefix_of(big@),
{
    let n = small.len();
    if n > big.len() {
        return false;
    }
    for i in 0..n
        invariant
            n == small@.len() <= big@.len(),
            forall|j: int| 0 <= j < i ==> small@[j] == big@[j],
    {
        if small[i] != big[i] {
            return false;
        }
    }
    proof {
        assert(small@ =~= big@.subrange(0, n as int));
    }
    true
}

/// Calculates the state of the key binding engine, given a set of
/// characters that have already been received. An exact match wins over
/// being the prefix of a longer binding, and the earliest exactly-matching
/// binding is the one reported.
pub fn get_binding<'a>(queue: &[u8], bindings: &'a [Binding]) -> (r: BindingState<'a>)
    ensures
        ({
            let k = first_exact(bindings@, queue@, 0);
            match r {
                BindingState::Complete(b) => k >= 0 && *b == bindings@[k],
                BindingState::Start => k == -1 && any_prefix(bindings@, queue@),
                BindingState::Invalid => k == -1 && !any_prefix(bindings@, queue@),
            }
        }),
{
    let mut is_prefix = false;
    let n = bindings.len();
    for i in 0..n
        invariant
            n == bindings@.len(),
            first_exact(bindings@, queue@, 0) == first_exact(bindings@, queue@, i as nat),
            is_prefix <==> exists|j: int|
                0 <= j < i && queue@.is_prefix_of(#[trigger] bindings@[j].0@),
    {
        let b = &bindings[i];
        if eq_bytes(b.0.as_slice(), queue) {
            return BindingState::Complete(b);
        }
        if starts_with_bytes(b.0.as_slice(), queue) {
            is_prefix = true;
        }
    }
    if is_prefix {
        BindingState::Start
    } else {
        BindingState::Invalid
    }
}

/// The static key binding table: the byte sequence and command of every
/// binding the program answers to, in match priority order.
pub open spec fn standard_bindings() -> Seq<(Seq<u8>, ControllerMsg)> {
    seq![
        (seq![112u8], ControllerMsg::Pause),
        (seq![80u8], ControllerMsg::Play),
        (seq![32u8], ControllerMsg::Toggle),
        (seq![46u8], ControllerMsg::Sync),
        (seq![44u8], ControllerMsg::TapMode),
        (seq![39u8], ControllerMsg::SetMode(None)),
        (seq![113u8], ControllerMsg::Quit),
        // Control-C
        (seq![3u8], ControllerMsg::Quit),
        // ---- Arrow keys ----
        (seq![27u8, 91u8, 65u8], ControllerMsg::AdjustVolume(1i32)),
        (seq![27u8, 91u8, 66u8], ControllerMsg::AdjustVolume(-1i32)),
        (seq![27u8, 91u8, 67u8], ControllerMsg::AdjustTempo(1i32)),
        (seq![27u8, 91u8, 68u8], ControllerMsg::AdjustTempo(-1i32)),
        // ---- Vim-like directional keys ----
        (seq![107u8], ControllerMsg::AdjustVolume(1i32)),
        (seq![106u8], ControllerMsg::AdjustVolume(-1i32)),
        (seq![108u8], ControllerMsg::AdjustTempo(1i32)),
        (seq![104u8], ControllerMsg::AdjustTempo(-1i32)),
        // ---- Emacs-like directional keys ----
        (seq![16u8], ControllerMsg::AdjustVolume(1i32)),
        (seq![14u8], ControllerMsg::AdjustVolume(-1i32)),
        (seq![6u8], ControllerMsg::AdjustTempo(1i32)),
        (seq![2u8], ControllerMsg::AdjustTempo(-1i32)),
    ] + Seq::new(10, |i: int| (seq![(48u8 + i) as u8], ControllerMsg::SetMode(Some(i as u32))))
}

/// Sets up the vector of key mappings used by the program.
pub fn init_keybindings() -> (r: Vec<Binding>)
    ensures
        r@.len() == standard_bindings().len(),
        forall|i: int|
            0 <= i < r@.len() ==> (#[trigger] r@[i].0@, r@[i].1) == standard_bindings()[i],
{
    let mut keys: Vec<Binding> = Vec::new();
    keys.push(Binding(vec![112u8], ControllerMsg::Pause));
    keys.push(Binding(vec![80u8], ControllerMsg::Play));
    keys.push(Binding(vec![32u8], ControllerMsg::Toggle));
    keys.push(Binding(vec![46u8], ControllerMsg::Sync));
    keys.push(Binding(vec![44u8], ControllerMsg::TapMode));
    keys.push(Binding(vec![39u8], ControllerMsg::SetMode(None)));
    keys.push(Binding(vec![113u8], ControllerMsg::Quit));
    keys.push(Binding(vec![3u8], ControllerMsg::Quit));
    keys.push(Binding(vec![27u8, 91u8, 65u8], ControllerMsg::AdjustVolume(1)));
    keys.push(Binding(vec![27u8, 91u8, 66u8], ControllerMsg::AdjustVolume(-1)));
    keys.push(Binding(vec![27u8, 91u8, 67u8], ControllerMsg::AdjustTempo(1)));
    keys.push(Binding(vec![27u8, 91u8, 68u8], ControllerMsg::AdjustTempo(-1)));
    keys.push(Binding(vec![107u8], ControllerMsg::AdjustVolume(1)));
    keys.push(Binding(vec![106u8], ControllerMsg::AdjustVolume(-1)));
    keys.push(Binding(vec![108u8], ControllerMsg::AdjustTempo(1)));
    keys.push(Binding(vec![104u8], ControllerMsg::AdjustTempo(-1)));
    keys.push(Binding(vec![16u8], ControllerMsg::AdjustVolume(1)));
    keys.push(Binding(vec![14u8], ControllerMsg::AdjustVolume(-1)));
    keys.push(Binding(vec![6u8], ControllerMsg::AdjustTempo(1)));
    keys.push(Binding(vec![2u8], ControllerMsg::AdjustTempo(-1)));

    // Add number keys for directly typing tempo.
    let mut d: u8 = 0;
    while d < 10
        invariant
            d <= 10,
            keys@.len() == 20 + d,
            forall|i: int|
                0 <= i < keys@.len() ==> (#[trigger] keys@[i].0@, keys@[i].1)
                    == standard_bindings()[i],
        decreases 10 - d,
    {
        keys.push(Binding(vec![48u8 + d], ControllerMsg::SetMode(Some(d as u32))));
        proof {
            assert(keys@.last().0@ =~= seq![(48u8 + d) as u8]);
        }
        d = d + 1;
    }
    keys
}

/// The incremental state of the key recognizer: the static binding table
/// and the bytes accumulated since the last complete or invalid match.
pub struct ControllerState {
    // The mapping from key events to commands.
    mapping: Vec<Binding>,
    // Partial key combination entered. This is only used for parsing
    // multi-byte escape codes at the moment, and should not be used for
    // actual series of keystrokes.
    partial: Vec<u8>,
}

impl ControllerState {
    /// The binding table of this recognizer.
    pub closed spec fn bindings_view(self) -> Seq<Binding> {
        self.mapping@
    }

    /// The bytes accumulated towards a multi-byte binding.
    pub closed spec fn partial_view(self) -> Seq<u8> {
        self.partial@
    }

    /// Creates a new ControllerState over the standard binding table.
    pub fn new() -> (r: ControllerState)
        ensures
            r.bindings_view().len() == standard_bindings().len(),
            forall|i: int|
                0 <= i < r.bindings_view().len() ==> (#[trigger] r.bindings_view()[i].0@,
                r.bindings_view()[i].1) == standard_bindings()[i],
            r.partial_view() == Seq::<u8>::empty(),
    {
        ControllerState { mapping: init_keybindings(), partial: Vec::new() }
    }

    /// Sends a byte received from the keyboard to the controller, which
    /// processes it according to the keymap and may or may not produce a
    /// message directing what to do. The byte extends the partial match;
    /// a complete match emits its command, and anything but the start of
    /// a longer binding clears the partial match.
    pub fn send(&mut self, key: u8) -> (r: Option<ControllerMsg>)
        ensures
            final(self).bindings_view() == old(self).bindings_view(),
            ({
                let q = old(self).partial_view().push(key);
                let k = first_exact(old(self).bindings_view(), q, 0);
                if k >= 0 {
                    r == Some(old(self).bindings_view()[k].1) && final(self).partial_view()
                        == Seq::<u8>::empty()
                } else if any_prefix(old(self).bindings_view(), q) {
                    r is None && final(self).partial_view() == q
                } else {
                    r is None && final(self).partial_view() == Seq::<u8>::empty()
                }
            }),
    {
        self.partial.push(key);
        match get_binding(self.partial.as_slice(), self.mapping.as_slice()) {
            BindingState::Invalid => {
                self.partial = Vec::new();
                None
            },
            BindingState::Start => None,
            BindingState::Complete(b) => {
                let cmd = b.1;
                self.partial = Vec::new();
                Some(cmd)
            },
        }
    }
}

} // verus!
