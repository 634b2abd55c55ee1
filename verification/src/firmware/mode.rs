//! Keyboard modes: one per RMK layer, `0..NUM_LAYERS`.

use vstd::prelude::*;

verus! {

/// Number of layers; every mode names one of them.
pub const NUM_LAYERS: u8 = 5;

/// Keyboard mode (an RMK layer), stored as its layer index.
#[derive(Clone, Copy, Debug, PartialEq, Eq, Structural)]
pub struct KeyboardMode(u8);

/// The layer after `layer`, wrapping to 0.
pub open spec fn next_layer(layer: u8) -> u8 {
    ((layer + 1) % (NUM_LAYERS as int)) as u8
}

/// The layer before `layer`, wrapping to the last one.
pub open spec fn prev_layer(layer: u8) -> u8 {
    ((layer + NUM_LAYERS - 1) % (NUM_LAYERS as int)) as u8
}

/// The display name of a layer: `"Layer "` followed by its digit.
pub open spec fn layer_name(layer: u8) -> Seq<char> {
    seq!['L', 'a', 'y', 'e', 'r', ' ', ((48 + layer) as u32) as char]
}

impl KeyboardMode {
    /// The layer index of this mode.
    pub closed spec fn layer(self) -> u8 {
        self.0
    }

    #[verifier::type_invariant]
    closed spec fn inv(self) -> bool {
        self.0 < NUM_LAYERS
    }

    /// The mode of `layer`; out-of-range layers give layer 0.
    pub fn new(layer: u8) -> (r: Self)
        ensures
            r.layer() == (if layer < NUM_LAYERS {
                layer
            } else {
                0
            }),
    {
        Self(
            if layer < NUM_LAYERS {
                layer
            } else {
                0
            },
        )
    }

    pub fn layer_index(&self) -> (r: u8)
        ensures
            r == self.layer(),
            r < NUM_LAYERS,
    {
        proof {
            use_type_invariant(self);
        }
        self.0
    }

    /// Same as `new`.
    pub fn from_layer(layer: u8) -> (r: Self)
        ensures
            r.layer() == (if layer < NUM_LAYERS {
                layer
            } else {
                0
            }),
    {
        Self::new(layer)
    }

    /// The mode's display name, `"Layer N"`.
    pub fn name(&self) -> (r: &'static str)
        ensures
            r@ == layer_name(self.layer()),
    {
        proof {
            use_type_invariant(self);
        }
        match self.0 {
            0 => {
                proof {
                    reveal_strlit("Layer 0");
                }
                assert("Layer 0"@ =~= layer_name(0));
                "Layer 0"
            },
            1 => {
                proof {
                    reveal_strlit("Layer 1");
                }
                assert("Layer 1"@ =~= layer_name(1));
                "Layer 1"
            },
            2 => {
                proof {
                    reveal_strlit("Layer 2");
                }
                assert("Layer 2"@ =~= layer_name(2));
                "Layer 2"
            },
            3 => {
                proof {
                    reveal_strlit("Layer 3");
                }
                assert("Layer 3"@ =~= layer_name(3));
                "Layer 3"
            },
            _ => {
                proof {
                    reveal_strlit("Layer 4");
                }
                assert("Layer 4"@ =~= layer_name(4));
                "Layer 4"
            },
        }
    }

    /// The next mode, wrapping from the last layer to layer 0.
    pub fn next(&self) -> (r: KeyboardMode)
        ensures
            r.layer() == next_layer(self.layer()),
    {
        proof {
            use_type_invariant(self);
        }
        Self((self.0 + 1) % NUM_LAYERS)
    }

    /// The previous mode, wrapping from layer 0 to the last layer.
    pub fn prev(&self) -> (r: KeyboardMode)
        ensures
            r.layer() == prev_layer(self.layer()),
    {
        proof {
            use_type_invariant(self);
        }
        Self((self.0 + NUM_LAYERS - 1) % NUM_LAYERS)
    }

    /// All modes, in layer order.
    pub fn all() -> (r: Vec<KeyboardMode>)
        ensures
            r@.len() == NUM_LAYERS,
            forall|i: int| 0 <= i < NUM_LAYERS ==> (#[trigger] r@[i]).layer() == i,
    {
        let mut v: Vec<KeyboardMode> = Vec::new();
        let mut i: u8 = 0;
        while i < NUM_LAYERS
            invariant
                i <= NUM_LAYERS,
                v@.len() == i,
                forall|j: int| 0 <= j < i ==> (#[trigger] v@[j]).layer() == j,
            decreases NUM_LAYERS - i,
        {
            v.push(Self(i));
            i = i + 1;
        }
        v
    }
}

impl Default for KeyboardMode {
    fn default() -> (r: Self)
        ensures
            r.layer() == 0,
    {
        Self(0)
    }
}

/// `next` and `prev` undo each other on every layer.
pub proof fn lemma_next_prev_inverse(layer: u8)
    requires
        layer < NUM_LAYERS,
    ensures
        prev_layer(next_layer(layer)) == layer,
        next_layer(prev_layer(layer)) == layer,
{
}

/// `next` applied `n` times.
pub open spec fn next_n(layer: u8, n: nat) -> u8
    decreases n,
{
    if n == 0 {
        layer
    } else {
        next_layer(next_n(layer, (n - 1) as nat))
    }
}

/// `prev` applied `n` times.
pub open spec fn prev_n(layer: u8, n: nat) -> u8
    decreases n,
{
    if n == 0 {
        layer
    } else {
        prev_layer(prev_n(layer, (n - 1) as nat))
    }
}

/// Applying `next` (or `prev`) `NUM_LAYERS` times comes back to the same layer.
pub proof fn lemma_full_cycle(layer: u8)
    requires
        layer < NUM_LAYERS,
    ensures
        next_n(layer, NUM_LAYERS as nat) == layer,
        prev_n(layer, NUM_LAYERS as nat) == layer,
{
    reveal_with_fuel(next_n, 6);
    reveal_with_fuel(prev_n, 6);
}

} // verus!
