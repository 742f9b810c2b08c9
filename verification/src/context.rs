//! Choices made when the GL context is created: whether buffer swaps wait for the
//! display, and which of the display's framebuffer configurations is used.

use vstd::prelude::*;

verus! {

/// How frames are presented (Bevy's window present modes).
#[derive(PartialEq, Eq, Structural, Clone, Copy, Debug)]
pub enum PresentMode {
    AutoVsync,
    AutoNoVsync,
    Fifo,
    FifoRelaxed,
    Immediate,
    Mailbox,
}

/// Whether the present mode waits for vertical sync.
pub open spec fn spec_vsync(mode: PresentMode) -> bool {
    match mode {
        PresentMode::AutoVsync | PresentMode::Fifo | PresentMode::FifoRelaxed => true,
        PresentMode::AutoNoVsync | PresentMode::Immediate | PresentMode::Mailbox => false,
    }
}

/// Whether buffer swaps wait for vertical sync under `mode`.
pub fn vsync_for(mode: PresentMode) -> (r: bool)
    ensures
        r == spec_vsync(mode),
{
    match mode {
        PresentMode::AutoVsync => true,
        PresentMode::AutoNoVsync => false,
        PresentMode::Fifo => true,
        PresentMode::FifoRelaxed => true,
        PresentMode::Immediate => false,
        PresentMode::Mailbox => false,
    }
}

/// `i` is the last configuration with the most samples.
pub open spec fn spec_is_config_choice(samples: Seq<u8>, i: int) -> bool {
    &&& 0 <= i < samples.len()
    &&& forall|j: int| 0 <= j < samples.len() ==> samples[j] <= samples[i]
    &&& forall|j: int| i < j < samples.len() ==> samples[j] < samples[i]
}

/// The configuration to create the context with, given each configuration's sample
/// count in the order the display lists them: the one with the most samples, the later
/// one among equals. `None` when the display offers none.
pub fn pick_config(samples: &Vec<u8>) -> (r: Option<usize>)
    ensures
        r is None <==> samples@.len() == 0,
        r matches Some(i) ==> spec_is_config_choice(samples@, i as int),
{
    if samples.len() == 0 {
        return None;
    }
    let mut best: usize = 0;
    let mut k: usize = 1;
    while k < samples.len()
        invariant
            1 <= k <= samples@.len(),
            best < k,
            forall|j: int| 0 <= j < k ==> samples@[j] <= samples@[best as int],
            forall|j: int| best < j < k ==> samples@[j] < samples@[best as int],
        decreases samples@.len() - k,
    {
        if !(samples[best] > samples[k]) {
            best = k;
        }
        k = k + 1;
    }
    Some(best)
}

/// The chosen configuration is the only one meeting `spec_is_config_choice`.
pub proof fn lemma_config_choice_unique(samples: Seq<u8>, i: int, j: int)
    requires
        spec_is_config_choice(samples, i),
        spec_is_config_choice(samples, j),
    ensures
        i == j,
{
    if i < j {
        assert(samples[j] < samples[i]);
        assert(samples[i] <= samples[j]);
    } else if j < i {
        assert(samples[i] < samples[j]);
        assert(samples[j] <= samples[i]);
    }
}

} // verus!
