//! Log-structured key-value store on one flash page.
//!
//! The page is a sequence of 32-bit words. Each entry is one word whose
//! little-endian bytes are `[magic[0], magic[1], value, key]`; an erased word
//! reads `0xFFFF_FFFF` and marks the end of the log. Reads return the value of
//! the last entry for a key; writes append, and compact the page when it is full.

use vstd::prelude::*;

verus! {

/// What an erased flash word reads as.
pub const ERASED_WORD: u32 = 0xFFFF_FFFF;

/// Byte `0` (least significant) of a word.
pub open spec fn byte0(w: u32) -> u8 {
    (w % 256) as u8
}

/// Byte `1` of a word.
pub open spec fn byte1(w: u32) -> u8 {
    ((w / 256) % 256) as u8
}

/// Byte `2` of a word.
pub open spec fn byte2(w: u32) -> u8 {
    ((w / 65536) % 256) as u8
}

/// Byte `3` (most significant) of a word.
pub open spec fn byte3(w: u32) -> u8 {
    (w / 16777216) as u8
}

/// The word whose little-endian bytes are `[m0, m1, value, key]`.
pub open spec fn entry_word(m0: u8, m1: u8, value: u8, key: u8) -> u32 {
    (m0 + 256 * m1 + 65536 * value + 16777216 * key) as u32
}

/// `w` is an entry for `key` under the magic bytes `m0`, `m1`.
pub open spec fn is_entry_for(w: u32, m0: u8, m1: u8, key: u8) -> bool {
    byte0(w) == m0 && byte1(w) == m1 && byte3(w) == key
}

/// `w` is an entry (for some key) under the magic bytes `m0`, `m1`.
pub open spec fn is_entry(w: u32, m0: u8, m1: u8) -> bool {
    byte0(w) == m0 && byte1(w) == m1
}

/// The value of the last entry for `key` in `log`, if there is one.
pub open spec fn latest(log: Seq<u32>, m0: u8, m1: u8, key: u8) -> Option<u8>
    decreases log.len(),
{
    if log.len() == 0 {
        None
    } else if is_entry_for(log.last(), m0, m1, key) {
        Some(byte2(log.last()))
    } else {
        latest(log.drop_last(), m0, m1, key)
    }
}

/// The index of the first erased word at or after `i` (the page length if none).
pub open spec fn first_erased_from(page: Seq<u32>, i: int) -> int
    decreases page.len() - i,
{
    if i >= page.len() {
        page.len() as int
    } else if page[i] == ERASED_WORD {
        i
    } else {
        first_erased_from(page, i + 1)
    }
}

/// Length of the log: the words before the first erased one.
pub open spec fn log_len(page: Seq<u32>) -> int {
    first_erased_from(page, 0)
}

/// The log of a page.
pub open spec fn log_of(page: Seq<u32>) -> Seq<u32> {
    page.subrange(0, log_len(page))
}

/// A page as the store leaves it: once a word is erased, all later ones are too.
pub open spec fn well_formed_page(page: Seq<u32>) -> bool {
    forall|i: int, j: int| 0 <= i < j < page.len() && page[i] == ERASED_WORD ==> page[j]
        == ERASED_WORD
}

/// The latest value of every key (0..=255) in a log.
pub open spec fn snapshot(log: Seq<u32>, m0: u8, m1: u8) -> Seq<Option<u8>> {
    Seq::new(256, |k: int| latest(log, m0, m1, k as u8))
}

/// The entries that compaction writes for the first `n` keys of a snapshot, in key order.
pub open spec fn compacted(snap: Seq<Option<u8>>, m0: u8, m1: u8, n: int) -> Seq<u32>
    decreases n,
{
    if n <= 0 {
        Seq::empty()
    } else {
        let prefix = compacted(snap, m0, m1, n - 1);
        match snap[n - 1] {
            Some(v) => prefix.push(entry_word(m0, m1, v, (n - 1) as u8)),
            None => prefix,
        }
    }
}

/// `n` erased words.
pub open spec fn erased_words(n: int) -> Seq<u32> {
    Seq::new(n as nat, |i: int| ERASED_WORD)
}

/// Decomposing an entry word gives back its bytes; it reads as erased only when
/// all four bytes are `0xFF`.
pub proof fn lemma_entry_word_bytes(m0: u8, m1: u8, value: u8, key: u8)
    ensures
        byte0(entry_word(m0, m1, value, key)) == m0,
        byte1(entry_word(m0, m1, value, key)) == m1,
        byte2(entry_word(m0, m1, value, key)) == value,
        byte3(entry_word(m0, m1, value, key)) == key,
        entry_word(m0, m1, value, key) == ERASED_WORD <==> (m0 == 0xFF && m1 == 0xFF && value
            == 0xFF && key == 0xFF),
{
    let w = entry_word(m0, m1, value, key);
    assert(m0 + 256 * m1 + 65536 * value + 16777216 * key <= 0xFFFF_FFFF) by (nonlinear_arith)
        requires
            m0 < 256,
            m1 < 256,
            value < 256,
            key < 256,
    ;
    assert(w % 256 == m0 && (w / 256) % 256 == m1 && (w / 65536) % 256 == value && w / 16777216
        == key) by (nonlinear_arith)
        requires
            w == m0 + 256 * m1 + 65536 * value + 16777216 * key,
            m0 < 256,
            m1 < 256,
            value < 256,
            key < 256,
    ;
}

/// The first erased word from `i` on is found at `l` when no word in `i..l` is
/// erased and `l` is erased or the end.
pub proof fn lemma_first_erased_at(page: Seq<u32>, i: int, l: int)
    requires
        0 <= i <= l <= page.len(),
        forall|j: int| i <= j < l ==> page[j] != ERASED_WORD,
        l == page.len() || page[l] == ERASED_WORD,
    ensures
        first_erased_from(page, i) == l,
    decreases l - i,
{
    if i < l {
        lemma_first_erased_at(page, i + 1, l);
    }
}

/// The log length lies within the page, and no word of the log is erased.
pub proof fn lemma_log_len_bounds(page: Seq<u32>, i: int)
    requires
        0 <= i <= page.len(),
    ensures
        i <= first_erased_from(page, i) <= page.len(),
        forall|j: int| i <= j < first_erased_from(page, i) ==> page[j] != ERASED_WORD,
        first_erased_from(page, i) == page.len() || page[first_erased_from(page, i)]
            == ERASED_WORD,
    decreases page.len() - i,
{
    if i < page.len() && page[i] != ERASED_WORD {
        lemma_log_len_bounds(page, i + 1);
    }
}

/// Compaction writes at most one entry per key.
pub proof fn lemma_compacted_len(snap: Seq<Option<u8>>, m0: u8, m1: u8, n: int)
    requires
        0 <= n,
    ensures
        compacted(snap, m0, m1, n).len() <= n,
    decreases n,
{
    if n > 0 {
        lemma_compacted_len(snap, m0, m1, n - 1);
    }
}

/// Compacting more keys never gives fewer entries.
pub proof fn lemma_compacted_len_mono(snap: Seq<Option<u8>>, m0: u8, m1: u8, a: int, b: int)
    requires
        0 <= a <= b,
    ensures
        compacted(snap, m0, m1, a).len() <= compacted(snap, m0, m1, b).len(),
    decreases b - a,
{
    if a < b {
        lemma_compacted_len_mono(snap, m0, m1, a, b - 1);
    }
}

/// The entry word for `key`/`value` under the given magic bytes.
fn make_entry(m0: u8, m1: u8, value: u8, key: u8) -> (r: u32)
    ensures
        r == entry_word(m0, m1, value, key),
{
    proof {
        lemma_entry_word_bytes(m0, m1, value, key);
    }
    m0 as u32 + (m1 as u32) * 256 + (value as u32) * 65536 + (key as u32) * 16777216
}

/// Log-structured flash key-value store configuration: where its page is,
/// how large it is, and the magic bytes that mark its entries.
pub struct FlashStore {
    page_addr: u32,
    page_size: usize,
    magic: [u8; 2],
}

impl FlashStore {
    /// Start address of the page.
    pub closed spec fn spec_page_addr(&self) -> u32 {
        self.page_addr
    }

    /// Size of the page in bytes.
    pub closed spec fn spec_page_size(&self) -> usize {
        self.page_size
    }

    /// First magic byte.
    pub closed spec fn magic0(&self) -> u8 {
        self.magic@[0]
    }

    /// Second magic byte.
    pub closed spec fn magic1(&self) -> u8 {
        self.magic@[1]
    }

    /// Number of entries the page holds.
    pub open spec fn spec_max_entries(&self) -> int {
        (self.spec_page_size() / 4) as int
    }

    /// What `read` returns for `key` on `page`.
    pub open spec fn spec_read(&self, page: Seq<u32>, key: u8, default: u8) -> u8 {
        match latest(log_of(page), self.magic0(), self.magic1(), key) {
            Some(v) => v,
            None => default,
        }
    }

    /// The page that `write` leaves behind.
    pub open spec fn spec_write(&self, page: Seq<u32>, key: u8, val: u8) -> Seq<u32> {
        let m0 = self.magic0();
        let m1 = self.magic1();
        let log = log_of(page);
        if latest(log, m0, m1, key) == Some(val) {
            page
        } else if log_len(page) < page.len() {
            page.update(log_len(page), entry_word(m0, m1, val, key))
        } else {
            let snap = snapshot(log, m0, m1).update(key as int, Some(val));
            let c = compacted(snap, m0, m1, 256);
            c + erased_words(page.len() - c.len())
        }
    }

    /// The entries compaction would leave when writing `val` for `key` to a
    /// full `page`: the latest value of every key, in key order.
    pub open spec fn compaction_of(&self, page: Seq<u32>, key: u8, val: u8) -> Seq<u32> {
        compacted(
            snapshot(log_of(page), self.magic0(), self.magic1()).update(key as int, Some(val)),
            self.magic0(),
            self.magic1(),
            256,
        )
    }

    /// Writing `val` for `key` stays within `page`: when the write has to
    /// compact a full page, the latest values of all keys fit in it.
    pub open spec fn write_fits(&self, page: Seq<u32>, key: u8, val: u8) -> bool {
        (latest(log_of(page), self.magic0(), self.magic1(), key) != Some(val) && log_len(page)
            == page.len()) ==> self.compaction_of(page, key, val).len() <= page.len()
    }

    /// Create a store backed by the flash page at `page_addr` of `page_size`
    /// bytes whose entries carry `magic`.
    pub fn new(page_addr: u32, page_size: usize, magic: [u8; 2]) -> (r: Self)
        ensures
            r.spec_page_addr() == page_addr,
            r.spec_page_size() == page_size,
            r.magic0() == magic@[0],
            r.magic1() == magic@[1],
    {
        Self { page_addr, page_size, magic }
    }

    /// Maximum number of entries this page can hold.
    pub fn max_entries(&self) -> (r: usize)
        ensures
            r == self.spec_max_entries(),
    {
        self.page_size / 4
    }

    /// Index of the first erased word of `page` (its length if none).
    fn log_end(page: &[u32]) -> (r: usize)
        ensures
            r == log_len(page@),
    {
        let n = page.len();
        let mut i: usize = 0;
        while i < n && page[i] != ERASED_WORD
            invariant
                n == page@.len(),
                i <= n,
                first_erased_from(page@, 0) == first_erased_from(page@, i as int),
            decreases n - i,
        {
            i = i + 1;
        }
        i
    }

    /// Read the latest value for `key`. Returns `default` if not found.
    ///
    /// Scans the log from start to end, returning the last matching entry.
    pub fn read(&self, page: &[u32], key: u8, default: u8) -> (r: u8)
        requires
            page@.len() == self.spec_max_entries(),
        ensures
            r == self.spec_read(page@, key, default),
    {
        let end = Self::log_end(page);
        proof {
            lemma_log_len_bounds(page@, 0);
        }
        let mut result = default;
        let mut i: usize = 0;
        while i < end
            invariant
                end == log_len(page@),
                end <= page@.len(),
                i <= end,
                result == (match latest(
                    page@.subrange(0, i as int),
                    self.magic0(),
                    self.magic1(),
                    key,
                ) {
                    Some(v) => v,
                    None => default,
                }),
            decreases end - i,
        {
            let word = page[i];
            let b0 = (word % 256) as u8;
            let b1 = ((word / 256) % 256) as u8;
            let b2 = ((word / 65536) % 256) as u8;
            let b3 = (word / 16777216) as u8;
            if b0 == self.magic[0] && b1 == self.magic[1] && b3 == key {
                result = b2;
            }
            assert(page@.subrange(0, i + 1).drop_last() =~= page@.subrange(0, i as int));
            i = i + 1;
        }
        result
    }

    /// Write a value for `key`. Skips if unchanged; appends to the log; when the
    /// page is full, collects the latest value of every key, erases the page and
    /// rewrites those values (with the new one) in key order.
    pub fn write(&self, page: &mut [u32], key: u8, val: u8)
        requires
            old(page)@.len() == self.spec_max_entries(),
            self.write_fits(old(page)@, key, val),
        ensures
            final(page)@ == self.spec_write(old(page)@, key, val),
    {
        let ghost m0 = self.magic0();
        let ghost m1 = self.magic1();
        // Skip if the page already holds this exact value.
        if self.read(page, key, val.wrapping_add(1)) == val {
            return;
        }
        let end = Self::log_end(page);
        proof {
            lemma_log_len_bounds(page@, 0);
        }
        if end < page.len() {
            page[end] = make_entry(self.magic[0], self.magic[1], val, key);
            return;
        }
        // Page full: collect the latest value of every key.

        let mut snap: Vec<Option<u8>> = Vec::new();
        let mut k: usize = 0;
        while k < 256
            invariant
                k <= 256,
                snap@ =~= Seq::new(k as nat, |j: int| latest(Seq::<u32>::empty(), m0, m1, j as u8)),
            decreases 256 - k,
        {
            snap.push(None);
            k = k + 1;
        }
        let n = page.len();
        let mut i: usize = 0;
        while i < n
            invariant
                n == page@.len(),
                n == end,
                i <= n,
                page@ == old(page)@,
                m0 == self.magic0(),
                m1 == self.magic1(),
                snap@ =~= snapshot(page@.subrange(0, i as int), m0, m1),
            decreases n - i,
        {
            let word = page[i];
            let b0 = (word % 256) as u8;
            let b1 = ((word / 256) % 256) as u8;
            let b2 = ((word / 65536) % 256) as u8;
            let b3 = (word / 16777216) as u8;
            let ghost before = page@.subrange(0, i as int);
            let ghost after = page@.subrange(0, i + 1);
            assert(after.drop_last() =~= before);
            if b0 == self.magic[0] && b1 == self.magic[1] {
                snap.set(b3 as usize, Some(b2));
            }
            i = i + 1;
            assert(snap@ =~= snapshot(after, m0, m1));
        }
        assert(page@.subrange(0, n as int) =~= log_of(page@));
        snap.set(key as usize, Some(val));
        let ghost snap_final = snap@;
        assert(snap_final =~= snapshot(log_of(old(page)@), m0, m1).update(key as int, Some(val)));
        assert(compacted(snap_final, m0, m1, 256).len() <= n);
        // Erase the page.
        let mut i: usize = 0;
        while i < n
            invariant
                n == page@.len(),
                i <= n,
                forall|j: int| 0 <= j < i ==> page@[j] == ERASED_WORD,
            decreases n - i,
        {
            page[i] = ERASED_WORD;
            i = i + 1;
        }
        assert(page@ =~= erased_words(n as int));
        // Rewrite the collected values in key order.
        let mut slot: usize = 0;
        let mut k: usize = 0;
        while k < 256
            invariant
                k <= 256,
                n == page@.len(),
                compacted(snap_final, m0, m1, 256).len() <= n,
                snap@ == snap_final,
                snap_final.len() == 256,
                m0 == self.magic0(),
                m1 == self.magic1(),
                slot == compacted(snap_final, m0, m1, k as int).len(),
                slot <= k,
                page@ =~= compacted(snap_final, m0, m1, k as int) + erased_words(n - slot),
            decreases 256 - k,
        {
            proof {
                lemma_compacted_len_mono(snap_final, m0, m1, k + 1, 256);
            }
            if let Some(v) = snap[k] {
                page[slot] = make_entry(self.magic[0], self.magic[1], v, k as u8);
                slot = slot + 1;
            }
            k = k + 1;
            proof {
                lemma_compacted_len(snap_final, m0, m1, k as int);
            }
        }
    }

    /// Erase the whole page: every key reads its default again.
    pub fn erase(&self, page: &mut [u32])
        ensures
            final(page)@ == erased_words(old(page)@.len() as int),
    {
        let n = page.len();
        let mut i: usize = 0;
        while i < n
            invariant
                n == page@.len(),
                i <= n,
                forall|j: int| 0 <= j < i ==> page@[j] == ERASED_WORD,
            decreases n - i,
        {
            page[i] = ERASED_WORD;
            i = i + 1;
        }
        assert(page@ =~= erased_words(n as int));
    }
}

} // verus!

verus! {

/// The last entry for `key` in a compacted log is the snapshot's value for
/// `key`, among the first `n` keys.
pub proof fn lemma_compacted_latest(snap: Seq<Option<u8>>, m0: u8, m1: u8, n: int, k: int)
    requires
        snap.len() == 256,
        0 <= n <= 256,
        0 <= k < 256,
    ensures
        latest(compacted(snap, m0, m1, n), m0, m1, k as u8) == (if k < n {
            snap[k]
        } else {
            None
        }),
    decreases n,
{
    if n > 0 {
        lemma_compacted_latest(snap, m0, m1, n - 1, k);
        let prefix = compacted(snap, m0, m1, n - 1);
        if let Some(v) = snap[n - 1] {
            let e = entry_word(m0, m1, v, (n - 1) as u8);
            lemma_entry_word_bytes(m0, m1, v, (n - 1) as u8);
            assert(prefix.push(e).drop_last() =~= prefix);
            assert(((n - 1) as u8 == k as u8) == (k == n - 1));
        }
    }
}

/// With magic bytes other than `0xFF 0xFF`, no word of a compacted log reads as erased.
pub proof fn lemma_compacted_not_erased(snap: Seq<Option<u8>>, m0: u8, m1: u8, n: int)
    requires
        !(m0 == 0xFF && m1 == 0xFF),
    ensures
        forall|j: int|
            0 <= j < compacted(snap, m0, m1, n).len() ==> compacted(snap, m0, m1, n)[j]
                != ERASED_WORD,
    decreases n,
{
    if n > 0 {
        lemma_compacted_not_erased(snap, m0, m1, n - 1);
        let prefix = compacted(snap, m0, m1, n - 1);
        if let Some(v) = snap[n - 1] {
            let e = entry_word(m0, m1, v, (n - 1) as u8);
            lemma_entry_word_bytes(m0, m1, v, (n - 1) as u8);
            assert(forall|j: int|
                0 <= j < prefix.push(e).len() ==> prefix.push(e)[j] == (if j < prefix.len() {
                    prefix[j]
                } else {
                    e
                }));
        }
    }
}

impl FlashStore {
    /// Writing keeps a page well formed: the log stays a contiguous prefix
    /// followed by erased words.
    pub proof fn lemma_write_well_formed(&self, page: Seq<u32>, key: u8, val: u8)
        requires
            page.len() == self.spec_max_entries(),
            self.write_fits(page, key, val),
            well_formed_page(page),
            !(self.magic0() == 0xFF && self.magic1() == 0xFF),
        ensures
            well_formed_page(self.spec_write(page, key, val)),
    {
        let m0 = self.magic0();
        let m1 = self.magic1();
        let log = log_of(page);
        lemma_log_len_bounds(page, 0);
        lemma_entry_word_bytes(m0, m1, val, key);
        if latest(log, m0, m1, key) == Some(val) {
        } else if log_len(page) < page.len() {
        } else {
            let snap = snapshot(log, m0, m1).update(key as int, Some(val));
            lemma_compacted_not_erased(snap, m0, m1, 256);
        }
    }

    /// On a page of at least 256 words every write fits: compaction keeps at
    /// most one entry per key.
    pub proof fn lemma_large_page_fits(&self, page: Seq<u32>, key: u8, val: u8)
        requires
            page.len() >= 256,
        ensures
            self.write_fits(page, key, val),
    {
        let snap = snapshot(log_of(page), self.magic0(), self.magic1()).update(key as int, Some(val));
        lemma_compacted_len(snap, self.magic0(), self.magic1(), 256);
    }

    /// What a read gives back of a write: after writing `val` for `key`, reading
    /// `key` gives `val`, and reading any other key gives what it gave before.
    pub proof fn lemma_write_then_read(
        &self,
        page: Seq<u32>,
        key: u8,
        val: u8,
        other: u8,
        default: u8,
    )
        requires
            page.len() == self.spec_max_entries(),
            self.write_fits(page, key, val),
            well_formed_page(page),
            !(self.magic0() == 0xFF && self.magic1() == 0xFF),
        ensures
            self.spec_read(self.spec_write(page, key, val), other, default) == (if other == key {
                val
            } else {
                self.spec_read(page, other, default)
            }),
    {
        let m0 = self.magic0();
        let m1 = self.magic1();
        let log = log_of(page);
        let l = log_len(page);
        let out = self.spec_write(page, key, val);
        lemma_log_len_bounds(page, 0);
        lemma_entry_word_bytes(m0, m1, val, key);
        if latest(log, m0, m1, key) == Some(val) {
        } else if l < page.len() {
            let e = entry_word(m0, m1, val, key);
            assert(forall|j: int| 0 <= j < l + 1 ==> out[j] != ERASED_WORD);
            if l + 1 < out.len() {
                assert(page[l] == ERASED_WORD);
                assert(out[l + 1] == page[l + 1]);
            }
            lemma_first_erased_at(out, 0, l + 1);
            assert(log_of(out) =~= log.push(e));
            assert(log.push(e).drop_last() =~= log);
        } else {
            let snap = snapshot(log, m0, m1).update(key as int, Some(val));
            let c = compacted(snap, m0, m1, 256);
            lemma_compacted_len(snap, m0, m1, 256);
            lemma_compacted_not_erased(snap, m0, m1, 256);
            lemma_compacted_latest(snap, m0, m1, 256, other as int);
            assert(forall|j: int| 0 <= j < c.len() ==> out[j] == c[j]);
            lemma_first_erased_at(out, 0, c.len() as int);
            assert(log_of(out) =~= c);
        }
    }

    /// Writing the value a key already holds changes nothing: writing the
    /// same value twice programs the flash like writing it once.
    pub proof fn lemma_write_twice_is_write_once(&self, page: Seq<u32>, key: u8, val: u8)
        requires
            page.len() == self.spec_max_entries(),
            self.write_fits(page, key, val),
            well_formed_page(page),
            !(self.magic0() == 0xFF && self.magic1() == 0xFF),
        ensures
            self.spec_write(self.spec_write(page, key, val), key, val) == self.spec_write(
                page,
                key,
                val,
            ),
    {
        let other_default: u8 = if val == 255 { 0 } else { (val + 1) as u8 };
        self.lemma_write_then_read(page, key, val, key, other_default);
        let out = self.spec_write(page, key, val);
        assert(latest(log_of(out), self.magic0(), self.magic1(), key) == Some(val));
    }

    /// Reading an erased page gives the default for every key.
    pub proof fn lemma_erase_then_read(&self, n: int, key: u8, default: u8)
        requires
            0 <= n,
        ensures
            self.spec_read(erased_words(n), key, default) == default,
    {
        let page = erased_words(n);
        if n > 0 {
            lemma_first_erased_at(page, 0, 0);
        } else {
            lemma_first_erased_at(page, 0, 0);
        }
        assert(log_of(page) =~= Seq::<u32>::empty());
    }
}


// ---------------------------------------------------------------------------
// Committing a page to flash
// ---------------------------------------------------------------------------

/// Flash words can only be programmed while erased: bringing the page from
/// `old` to `new` needs an erase when some changed word is not erased.
pub open spec fn needs_erase(old: Seq<u32>, new: Seq<u32>) -> bool {
    exists|i: int| 0 <= i < old.len() && old[i] != new[i] && old[i] != ERASED_WORD
}

/// The words to program, in address order, among the first `n`: after an
/// erase every word of `new` that is not erased, otherwise every word that
/// changed.
pub open spec fn program_list(old: Seq<u32>, new: Seq<u32>, erase: bool, n: int) -> Seq<
    (usize, u32),
>
    decreases n,
{
    if n <= 0 {
        Seq::empty()
    } else {
        let prev = program_list(old, new, erase, n - 1);
        let i = n - 1;
        if (erase && new[i] != ERASED_WORD) || (!erase && old[i] != new[i]) {
            prev.push((i as usize, new[i]))
        } else {
            prev
        }
    }
}

/// The page a commit starts from: erased when the commit erases, `old` otherwise.
pub open spec fn commit_start(old: Seq<u32>, erase: bool) -> Seq<u32> {
    if erase {
        erased_words(old.len() as int)
    } else {
        old
    }
}

/// The page after programming `writes` in order.
pub open spec fn apply_writes(page: Seq<u32>, writes: Seq<(usize, u32)>) -> Seq<u32>
    decreases writes.len(),
{
    if writes.len() == 0 {
        page
    } else {
        apply_writes(page, writes.drop_last()).update(writes.last().0 as int, writes.last().1)
    }
}

/// How to bring the flash page from `old` to `new`: whether to erase it
/// first, and which words to program, in address order.
pub fn commit_plan(old: &[u32], new: &[u32]) -> (r: (bool, Vec<(usize, u32)>))
    requires
        old@.len() == new@.len(),
    ensures
        r.0 == needs_erase(old@, new@),
        r.1@ == program_list(old@, new@, r.0, old@.len() as int),
{
    let n = old.len();
    let mut erase = false;
    let mut i: usize = 0;
    while i < n
        invariant
            n == old@.len(),
            n == new@.len(),
            i <= n,
            erase == (exists|j: int| 0 <= j < i && old@[j] != new@[j] && old@[j] != ERASED_WORD),
        decreases n - i,
    {
        if old[i] != new[i] && old[i] != ERASED_WORD {
            erase = true;
        }
        i = i + 1;
    }
    let mut writes: Vec<(usize, u32)> = Vec::new();
    let mut i: usize = 0;
    while i < n
        invariant
            n == old@.len(),
            n == new@.len(),
            i <= n,
            writes@ == program_list(old@, new@, erase, i as int),
        decreases n - i,
    {
        if (erase && new[i] != ERASED_WORD) || (!erase && old[i] != new[i]) {
            writes.push((i, new[i]));
        }
        i = i + 1;
    }
    (erase, writes)
}

proof fn lemma_program_prefix(old: Seq<u32>, new: Seq<u32>, erase: bool, n: int)
    requires
        old.len() == new.len(),
        old.len() <= usize::MAX,
        0 <= n <= old.len(),
        erase == needs_erase(old, new),
    ensures
        ({
            let start = commit_start(old, erase);
            let list = program_list(old, new, erase, n);
            let p = apply_writes(start, list);
            &&& p.len() == old.len()
            &&& forall|j: int| 0 <= j < n ==> p[j] == new[j]
            &&& forall|j: int| n <= j < old.len() ==> p[j] == start[j]
            &&& forall|k: int| 0 <= k < list.len() ==> (list[k].0 as int) < n && start[list[k].0 as int] == ERASED_WORD
            &&& forall|k: int, l: int| 0 <= k < l < list.len() ==> list[k].0 < list[l].0
        }),
    decreases n,
{
    let start = commit_start(old, erase);
    if n > 0 {
        lemma_program_prefix(old, new, erase, n - 1);
        let prev = program_list(old, new, erase, n - 1);
        let i = n - 1;
        if (erase && new[i] != ERASED_WORD) || (!erase && old[i] != new[i]) {
            let list = prev.push((i as usize, new[i]));
            assert(list.drop_last() =~= prev);
            assert((i as usize) as int == i);
            if !erase {
                assert(!(old[i] != new[i] && old[i] != ERASED_WORD));
                assert(old[i] == ERASED_WORD);
            }
            let p_prev = apply_writes(start, prev);
            let p = apply_writes(start, list);
            assert(p == p_prev.update(i, new[i]));
            assert forall|k: int| 0 <= k < list.len() implies (list[k].0 as int) < n && start[list[k].0 as int] == ERASED_WORD by {
                if k < prev.len() {
                    assert(list[k] == prev[k]);
                }
            }
            assert forall|k: int, l: int| 0 <= k < l < list.len() implies list[k].0 < list[l].0 by {
                assert(list[k] == prev[k]);
                if l < prev.len() {
                    assert(list[l] == prev[l]);
                }
            }
        } else {
            if !erase {
                assert(old[i] == new[i]);
            }
        }
    }
}

/// Committing a page works: programming the planned words, after the
/// planned erase, leaves exactly the new page, and each word is programmed
/// once, while it is erased.
pub proof fn lemma_commit_reaches(old: Seq<u32>, new: Seq<u32>)
    requires
        old.len() == new.len(),
        old.len() <= usize::MAX,
    ensures
        ({
            let erase = needs_erase(old, new);
            let start = commit_start(old, erase);
            let list = program_list(old, new, erase, old.len() as int);
            &&& apply_writes(start, list) == new
            &&& forall|k: int| 0 <= k < list.len() ==> start[list[k].0 as int] == ERASED_WORD
            &&& forall|k: int, l: int| 0 <= k < l < list.len() ==> list[k].0 < list[l].0
        }),
{
    let erase = needs_erase(old, new);
    lemma_program_prefix(old, new, erase, old.len() as int);
    let start = commit_start(old, erase);
    let list = program_list(old, new, erase, old.len() as int);
    assert(apply_writes(start, list) =~= new);
}

} // verus!
