//! Stealth hardening: finding the pia manager's beacon tag constant
//! (`mov w8, #0x45`, followed within a few instructions by the store into the
//! beacon buffer) so that it can be patched to `mov w8, #0x0`, and the
//! one-shot state of that patch.
use vstd::prelude::*;

verus! {

/// `mov w8, #0x45` (movz): the beacon tag constant.
pub const TAG_CONST_MOVZ: u32 = 0x5280_08A8;

/// The replacement, `mov w8, #0x0`.
pub const TAG_CONST_MOVZ_ZERO: u32 = 0x5280_0008;

/// `sturb w8, [xN, #-0x54]` with the base register (bits 9:5) masked out.
pub const TAG_STORE_MASK: u32 = 0xFFFF_FC1F;

/// The masked encoding of the beacon store.
pub const TAG_STORE_VALUE: u32 = 0x381A_C008;

/// The store follows the constant load within this many instructions.
pub const STORE_LOOKAHEAD: usize = 6;

/// Largest mapping that is scanned.
pub const MAX_SCAN_SIZE: u64 = 0x20_0000;

/// Read permission bit of a memory mapping.
pub const PERM_R: u32 = 1;

/// Bytes per instruction word.
pub const WORD_SIZE: u64 = 4;

/// Whether a word is the beacon's buffer store.
pub open spec fn is_beacon_store(w: u32) -> bool {
    w & TAG_STORE_MASK == TAG_STORE_VALUE
}

/// Whether word `i` is the tag constant load with its store right behind it.
pub open spec fn is_beacon_site(words: Seq<u32>, i: int) -> bool {
    &&& 0 <= i < words.len()
    &&& words[i] == TAG_CONST_MOVZ
    &&& exists|k: int|
        i + 1 <= k < words.len() && k < i + 1 + STORE_LOOKAHEAD && #[trigger] is_beacon_store(
            words[k],
        )
}

/// Whether word `i` is the first beacon site.
pub open spec fn is_first_beacon_site(words: Seq<u32>, i: int) -> bool {
    &&& is_beacon_site(words, i)
    &&& forall|j: int| 0 <= j < i ==> !#[trigger] is_beacon_site(words, j)
}

/// The address of the first beacon site of the words mapped at `text_base`.
pub open spec fn spec_beacon_address(text_base: u64, words: Seq<u32>) -> Option<u64> {
    if exists|i: int| #[trigger] is_beacon_site(words, i) {
        let i = choose|i: int| is_first_beacon_site(words, i);
        Some((text_base + WORD_SIZE * i) as u64)
    } else {
        None
    }
}

proof fn lemma_first_site_unique(words: Seq<u32>, i: int)
    requires
        is_first_beacon_site(words, i),
    ensures
        (choose|j: int| is_first_beacon_site(words, j)) == i,
{
    let k = choose|j: int| is_first_beacon_site(words, j);
    assert(is_first_beacon_site(words, k));
    if k < i {
        assert(!is_beacon_site(words, k));
    }
    if i < k {
        assert(!is_beacon_site(words, i));
    }
}

/// Scans the manager's text, mapped at `text_base`, for the beacon site and
/// gives back its address.
pub fn find_beacon_site(text_base: u64, words: &[u32]) -> (r: Option<u64>)
    requires
        text_base + WORD_SIZE * words@.len() <= u64::MAX,
    ensures
        r == spec_beacon_address(text_base, words@),
        r matches Some(a) ==> exists|i: int|
            0 <= i < words@.len() && words@[i] == TAG_CONST_MOVZ && a == text_base + WORD_SIZE * i,
{
    let n = words.len();
    let mut i: usize = 0;
    while i < n
        invariant
            n == words@.len(),
            i <= n,
            text_base + WORD_SIZE * words@.len() <= u64::MAX,
            forall|j: int| 0 <= j < i ==> !#[trigger] is_beacon_site(words@, j),
        decreases n - i,
    {
        if words[i] == TAG_CONST_MOVZ {
            let end = if n - (i + 1) > STORE_LOOKAHEAD {
                i + 1 + STORE_LOOKAHEAD
            } else {
                n
            };
            let mut k: usize = i + 1;
            let mut found = false;
            while k < end
                invariant
                    i + 1 <= k,
                    end <= n,
                    n == words@.len(),
                    end == if i + 1 + STORE_LOOKAHEAD < n {
                        i + 1 + STORE_LOOKAHEAD
                    } else {
                        n as int
                    },
                    found ==> exists|m: int|
                        i + 1 <= m < end && #[trigger] is_beacon_store(words@[m]),
                    !found ==> forall|m: int|
                        i + 1 <= m < k ==> !#[trigger] is_beacon_store(words@[m]),
                decreases end - k,
            {
                if words[k] & TAG_STORE_MASK == TAG_STORE_VALUE {
                    found = true;
                    assert(is_beacon_store(words@[k as int]));
                }
                k = k + 1;
            }
            if found {
                proof {
                    assert(is_beacon_site(words@, i as int));
                    assert(is_first_beacon_site(words@, i as int));
                    lemma_first_site_unique(words@, i as int);
                }
                return Some(text_base + WORD_SIZE * (i as u64));
            }
            assert(!is_beacon_site(words@, i as int));
        }
        i = i + 1;
    }
    None
}

/// The part of the kernel's memory-info record that the scan reads.
#[derive(Debug, Clone, Copy, PartialEq, Eq, Structural)]
pub struct MemoryInfo {
    pub base_address: u64,
    pub size: u64,
    pub mem_type: u32,
    pub attribute: u32,
    pub perm: u32,
    pub device_refcount: u32,
    pub ipc_refcount: u32,
}

/// Whether a mapping may be scanned: readable, not empty and not too large.
pub open spec fn spec_scan_allowed(info: MemoryInfo) -> bool {
    info.perm & PERM_R != 0 && info.size != 0 && info.size <= MAX_SCAN_SIZE
}

/// The number of instruction words to scan in a mapping, if it may be scanned.
pub fn scan_word_count(info: &MemoryInfo) -> (r: Option<u64>)
    ensures
        r == if spec_scan_allowed(*info) {
            Some(info.size / WORD_SIZE)
        } else {
            None::<u64>
        },
{
    if info.perm & PERM_R == 0 || info.size == 0 || info.size > MAX_SCAN_SIZE {
        None
    } else {
        Some(info.size / WORD_SIZE)
    }
}

/// Where the patcher stands.
#[derive(Debug, Clone, Copy, PartialEq, Eq, Structural)]
pub enum PatchState {
    /// Stealth off: nothing to do.
    Idle,
    /// Looking for the manager module.
    Armed,
    /// Patched, or reported that it could not be.
    Settled,
}

/// How the patch attempt ended.
#[derive(Debug, Clone, Copy, PartialEq, Eq, Structural)]
pub enum PatchReport {
    /// The site was patched and now reads `mov w8, #0x0`.
    Suppressed(u64),
    /// The site was found but the patch did not take.
    PatchFailed(u64),
    /// No site matched the signature.
    SignatureNotFound,
}

/// The report of an attempt, from the site found and the word read back after
/// a successful patch (`None` when patching failed).
pub open spec fn spec_report(site: Option<u64>, readback: Option<u32>) -> PatchReport {
    match site {
        Some(a) => if readback == Some(TAG_CONST_MOVZ_ZERO) {
            PatchReport::Suppressed(a)
        } else {
            PatchReport::PatchFailed(a)
        },
        None => PatchReport::SignatureNotFound,
    }
}

/// The one-shot beacon patcher.
pub struct StealthPatcher {
    pub state: PatchState,
}

impl StealthPatcher {
    /// A patcher that does nothing until armed.
    pub fn new() -> (r: Self)
        ensures
            r.state == PatchState::Idle,
    {
        StealthPatcher { state: PatchState::Idle }
    }

    /// Arms the patcher when stealth mode is on; otherwise leaves it as it is.
    pub fn arm(&mut self, stealth_enabled: bool)
        ensures
            final(self).state == if stealth_enabled {
                PatchState::Armed
            } else {
                old(self).state
            },
    {
        if stealth_enabled {
            self.state = PatchState::Armed;
        }
    }

    /// Whether this frame should look for the manager.
    pub fn should_scan(&self) -> (r: bool)
        ensures
            r == (self.state == PatchState::Armed),
    {
        match self.state {
            PatchState::Armed => true,
            _ => false,
        }
    }

    /// The address whose mapping is to be scanned this frame: the manager's
    /// symbol, once it is loaded, while the patcher is armed. Otherwise the
    /// patcher waits, as it is, for a later frame.
    pub fn scan_target(&self, manager_symbol: Option<u64>) -> (r: Option<u64>)
        ensures
            r == if self.state == PatchState::Armed {
                manager_symbol
            } else {
                None::<u64>
            },
    {
        if self.should_scan() {
            manager_symbol
        } else {
            None
        }
    }

    /// Ends the attempt: the patcher settles and never runs again.
    pub fn settle(&mut self, site: Option<u64>, readback: Option<u32>) -> (r: PatchReport)
        ensures
            final(self).state == PatchState::Settled,
            r == spec_report(site, readback),
    {
        self.state = PatchState::Settled;
        match site {
            Some(a) => match readback {
                Some(w) => if w == TAG_CONST_MOVZ_ZERO {
                    PatchReport::Suppressed(a)
                } else {
                    PatchReport::PatchFailed(a)
                },
                None => PatchReport::PatchFailed(a),
            },
            None => PatchReport::SignatureNotFound,
        }
    }
}

/// What the scan finds: an address `a` exactly when some word is a beacon
/// site, and then `a` is the address of the first one: a tag constant load
/// with the beacon store within the next six words, none before it.
pub proof fn lemma_beacon_address_is_first_site(text_base: u64, words: Seq<u32>)
    requires
        text_base + WORD_SIZE * words.len() <= u64::MAX,
    ensures
        spec_beacon_address(text_base, words) is None <==> forall|i: int|
            !#[trigger] is_beacon_site(words, i),
        spec_beacon_address(text_base, words) matches Some(a) ==> exists|i: int|
            is_first_beacon_site(words, i) && a == text_base + WORD_SIZE * i && words[i]
                == TAG_CONST_MOVZ,
{
    if exists|i: int| #[trigger] is_beacon_site(words, i) {
        let w = choose|i: int| #[trigger] is_beacon_site(words, i);
        lemma_first_site_from(words, w, 0);
        let i = choose|i: int| is_first_beacon_site(words, i);
        assert(is_first_beacon_site(words, i));
    }
}

proof fn lemma_first_site_from(words: Seq<u32>, w: int, i: int)
    requires
        0 <= i <= w,
        is_beacon_site(words, w),
        forall|j: int| 0 <= j < i ==> !#[trigger] is_beacon_site(words, j),
    ensures
        exists|k: int| is_first_beacon_site(words, k),
    decreases w - i,
{
    if is_beacon_site(words, i) {
        assert(is_first_beacon_site(words, i));
    } else {
        lemma_first_site_from(words, w, i + 1);
    }
}

/// The patch counts as done only when a site was found and the word read
/// back after patching is `mov w8, #0x0`; a found site otherwise reports a
/// failed patch, and no site reports that the signature was not found.
pub proof fn lemma_report_outcomes(site: Option<u64>, readback: Option<u32>)
    ensures
        (spec_report(site, readback) is Suppressed) <==> (site is Some && readback == Some(
            TAG_CONST_MOVZ_ZERO,
        )),
        (spec_report(site, readback) is SignatureNotFound) <==> site is None,
        site matches Some(a) ==> (spec_report(site, readback) == PatchReport::Suppressed(a)
            || spec_report(site, readback) == PatchReport::PatchFailed(a)),
{
}

} // verus!
