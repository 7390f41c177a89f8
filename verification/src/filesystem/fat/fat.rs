//! The titular File Allocation Table.
use vstd::prelude::*;
use crate::byteorder::{le_u32, read_le_u32};
use super::boot_record::{FATBootRecord, EBR_LEN};
use super::FATType;

verus! {

/// The decoded state of one FAT entry.
#[derive(Debug, Copy, Clone, Eq, PartialEq, Structural)]
pub enum FATEntry {
    Free,
    Allocated { next: u32 },
    AllocatedEOF,
    Bad,
    Unknown,
}

/// Bytes per FAT32 entry.
pub const FAT32_ENTRY_LEN: usize = 4;

/// The value of a FAT32 entry once its top 4 bits are masked out.
pub open spec fn fat32_entry_value(data: Seq<u8>, index: int) -> int {
    le_u32(data, 4 * index) % 0x1000_0000
}

/// How a 28-bit FAT32 entry value is interpreted in a table with
/// `num_clusters` clusters.
pub open spec fn decode_fat32_entry(raw: int, num_clusters: int) -> FATEntry {
    if raw == 0 {
        FATEntry::Free
    } else if 2 <= raw < num_clusters {
        FATEntry::Allocated { next: raw as u32 }
    } else if raw == 0xFFF_FFF7 {
        FATEntry::Bad
    } else if raw >= 0xFFF_FFF8 {
        FATEntry::AllocatedEOF
    } else {
        FATEntry::Unknown
    }
}

pub struct FileAllocationTable {
    /// The actual bytes underlying the FAT
    raw_data: Vec<u8>,
    /// The type of FAT this is
    fat_type: FATType,
    /// The number of valid clusters
    num_clusters: u32,
}

impl FileAllocationTable {
    /// The bytes underlying the table.
    pub closed spec fn data(&self) -> Seq<u8> {
        self.raw_data@
    }

    /// The type of FAT this table belongs to.
    pub closed spec fn kind(&self) -> FATType {
        self.fat_type
    }

    /// The number of valid clusters.
    pub closed spec fn cluster_limit(&self) -> u32 {
        self.num_clusters
    }

    /// Whether the entry at `index` can be decoded: entries outside the
    /// cluster range and the two reserved entries always can; the others
    /// only in a FAT32 table whose bytes cover them.
    pub open spec fn entry_readable(&self, index: u32) -> bool {
        2 <= index < self.cluster_limit() ==> {
            &&& self.kind() == FATType::Fat32
            &&& 4 * index + 4 <= self.data().len()
        }
    }

    /// Whether every entry of the table can be decoded.
    pub open spec fn readable(&self) -> bool {
        forall|i: u32| #[trigger] self.entry_readable(i)
    }

    /// The entry at `index`, if `index` names a cluster of the table.
    pub open spec fn spec_entry(&self, index: u32) -> Option<FATEntry> {
        if index >= self.cluster_limit() {
            None
        } else if index < 2 {
            Some(FATEntry::Unknown)
        } else {
            Some(decode_fat32_entry(fat32_entry_value(self.data(), index as int), self.cluster_limit() as int))
        }
    }

    /// Follows the chain from `i` for at most `fuel` entries. `None` means the
    /// fuel ran out; `Some(None)` that the chain is broken (it reaches a
    /// free, bad, reserved or out-of-range entry); `Some(Some(c))` that it
    /// ends in an end-of-chain entry after visiting the clusters `c`.
    pub open spec fn walk(&self, i: u32, fuel: nat) -> Option<Option<Seq<u32>>>
        decreases fuel,
    {
        if fuel == 0 {
            None
        } else {
            match self.spec_entry(i) {
                Some(FATEntry::Allocated { next }) => match self.walk(next, (fuel - 1) as nat) {
                    Some(Some(rest)) => Some(Some(seq![i] + rest)),
                    r => r,
                },
                Some(FATEntry::AllocatedEOF) => Some(Some(seq![i])),
                _ => Some(None),
            }
        }
    }

    /// Whether following the chain from `start` stops after finitely many
    /// entries (it does unless the chain runs into a cycle).
    pub open spec fn chain_terminates(&self, start: u32) -> bool {
        exists|f: nat| #[trigger] self.walk(start, f) is Some
    }

    /// The cluster chain starting at `start`, or `None` if it is broken.
    pub open spec fn spec_chain(&self, start: u32) -> Option<Seq<u32>> {
        self.walk(start, choose|f: nat| #[trigger] self.walk(start, f) is Some).unwrap()
    }

    /// Once a walk has finished, more fuel does not change its outcome.
    pub proof fn lemma_walk_fuel(&self, i: u32, f: nat, g: nat)
        requires
            self.walk(i, f) is Some,
            f <= g,
        ensures
            self.walk(i, g) == self.walk(i, f),
        decreases f,
    {
        if f > 0 {
            match self.spec_entry(i) {
                Some(FATEntry::Allocated { next }) => {
                    self.lemma_walk_fuel(next, (f - 1) as nat, (g - 1) as nat);
                },
                _ => {},
            }
        }
    }

    /// A finished walk from `start` gives `spec_chain(start)`.
    pub proof fn lemma_walk_is_chain(&self, start: u32, f: nat)
        requires
            self.walk(start, f) is Some,
        ensures
            self.chain_terminates(start),
            self.spec_chain(start) == self.walk(start, f).unwrap(),
    {
        let c = choose|f: nat| #[trigger] self.walk(start, f) is Some;
        if c <= f {
            self.lemma_walk_fuel(start, c, f);
        } else {
            self.lemma_walk_fuel(start, f, c);
        }
    }

    /// Every suffix of a finished walk is itself the finished walk from the
    /// cluster it starts at.
    proof fn lemma_walk_suffix(&self, i: u32, f: nat, c: Seq<u32>, k: int)
        requires
            self.walk(i, f) == Some(Some(c)),
            0 <= k < c.len(),
        ensures
            k < f,
            self.walk(c[k], (f - k) as nat) == Some(Some(c.skip(k))),
        decreases f,
    {
        if k == 0 {
            assert(c.skip(0) =~= c);
            match self.spec_entry(i) {
                Some(FATEntry::Allocated { next }) => {},
                _ => {},
            }
        } else {
            match self.spec_entry(i) {
                Some(FATEntry::Allocated { next }) => {
                    let rest = self.walk(next, (f - 1) as nat).unwrap().unwrap();
                    assert(c == seq![i] + rest);
                    self.lemma_walk_suffix(next, (f - 1) as nat, rest, k - 1);
                    assert(rest[k - 1] == c[k]);
                    assert(rest.skip(k - 1) =~= c.skip(k));
                },
                _ => {},
            }
        }
    }

    /// The clusters of a finished walk are linked one to the next, and the
    /// last one marks the end of the chain.
    proof fn lemma_walk_links(&self, i: u32, f: nat, c: Seq<u32>)
        requires
            self.walk(i, f) == Some(Some(c)),
        ensures
            c.len() >= 1,
            c[0] == i,
            forall|k: int|
                0 <= k < c.len() - 1 ==> self.spec_entry(#[trigger] c[k]) == Some(
                    FATEntry::Allocated { next: c[k + 1] },
                ),
            self.spec_entry(c.last()) == Some(FATEntry::AllocatedEOF),
        decreases f,
    {
        match self.spec_entry(i) {
            Some(FATEntry::Allocated { next }) => {
                let rest = self.walk(next, (f - 1) as nat).unwrap().unwrap();
                self.lemma_walk_links(next, (f - 1) as nat, rest);
                assert(c == seq![i] + rest);
                assert forall|k: int|
                    0 <= k < c.len() - 1 implies self.spec_entry(#[trigger] c[k]) == Some(
                    FATEntry::Allocated { next: c[k + 1] },
                ) by {
                    if k > 0 {
                        assert(c[k] == rest[k - 1]);
                        assert(c[k + 1] == rest[k]);
                    }
                }
            },
            _ => {},
        }
    }

    /// A cluster chain starts at its first cluster, each cluster's entry
    /// links to the next cluster of the chain, the last cluster's entry
    /// marks the end of the chain, and no cluster occurs twice.
    pub proof fn lemma_chain_structure(&self, start: u32)
        requires
            self.chain_terminates(start),
            self.spec_chain(start) is Some,
        ensures
            ({
                let c = self.spec_chain(start).unwrap();
                &&& c.len() >= 1
                &&& c[0] == start
                &&& forall|k: int|
                    0 <= k < c.len() - 1 ==> self.spec_entry(#[trigger] c[k]) == Some(
                        FATEntry::Allocated { next: c[k + 1] },
                    )
                &&& self.spec_entry(c.last()) == Some(FATEntry::AllocatedEOF)
                &&& c.no_duplicates()
            }),
    {
        let f = choose|f: nat| #[trigger] self.walk(start, f) is Some;
        let c = self.spec_chain(start).unwrap();
        self.lemma_walk_links(start, f, c);
        assert forall|j: int, k: int| 0 <= j < c.len() && 0 <= k < c.len() && j != k implies c[j]
            != c[k] by {
            if c[j] == c[k] {
                self.lemma_walk_suffix(start, f, c, j);
                self.lemma_walk_suffix(start, f, c, k);
                if f - j <= f - k {
                    self.lemma_walk_fuel(c[j], (f - j) as nat, (f - k) as nat);
                } else {
                    self.lemma_walk_fuel(c[k], (f - k) as nat, (f - j) as nat);
                }
                assert(c.skip(j).len() != c.skip(k).len());
            }
        }
    }

    /// Creates a new File Allocation Table from
    ///
    /// Returns `None` if the given data isn't of the right format per the
    /// boot record
    pub fn new(raw_data: Vec<u8>, boot_record: &FATBootRecord) -> (r: Option<Self>)
        requires
            boot_record.bytes_per_sector != 0,
            boot_record.fat_type_computable(),
            boot_record.ebr@.len() == EBR_LEN,
        ensures
            (raw_data@.len() as int / (boot_record.bytes_per_sector as int) == boot_record.spec_fat_size())
                <==> r is Some,
            r matches Some(t) ==> {
                &&& t.data() == raw_data@
                &&& t.kind() == boot_record.spec_fat_type()
                &&& t.cluster_limit() == boot_record.spec_cluster_count()
            },
    {
        let sectors = raw_data.len() / boot_record.bytes_per_sector as usize;

        if sectors as u64 != boot_record.fat_size() as u64 {
            return None;
        }
        Some(
            Self {
                fat_type: boot_record.fat_type(),
                num_clusters: boot_record.cluster_count(),
                raw_data,
            },
        )
    }

    pub fn iter<'a>(&'a self) -> (it: FATIterator<'a>)
        ensures
            it.fat == self,
            it.index == 0,
    {
        FATIterator { fat: self, index: 0 }
    }

    /// Traverses the FAT to get a cluster chain sarting at a certain index.
    ///
    /// If the cluster at `start_index` is part of a valid chain, returns a
    /// list of clusters indexes making up the chain, starting with `start_index`.
    ///
    /// If it isn't (references a free cluster, an invalid index, loops back
    /// on itself, etc), returns `None`.
    pub fn get_chain(&self, start_index: u32) -> (r: Option<Vec<u32>>)
        requires
            self.readable(),
        ensures
            match r {
                Some(v) => self.chain_terminates(start_index) && self.spec_chain(start_index) == Some(
                    v@,
                ),
                None => !self.chain_terminates(start_index) || self.spec_chain(start_index) is None,
            },
    {
        // No valid chain visits a cluster twice, so it is shorter than the
        // cluster count: a walk that goes on longer has met a cycle.
        let ghost big: nat = self.num_clusters as nat + 1;
        let mut steps_left: u64 = self.num_clusters as u64 + 1;
        let mut chain: Vec<u32> = Vec::new();
        let mut i = start_index;
        loop
            invariant
                self.readable(),
                big == self.cluster_limit() + 1,
                steps_left <= big,
                self.walk(start_index, big) == match self.walk(i, steps_left as nat) {
                    Some(Some(rest)) => Some(Some(chain@ + rest)),
                    other => other,
                },
            decreases steps_left,
        {
            if steps_left == 0 {
                proof {
                    self.lemma_no_chain_past_limit(start_index);
                }
                return None;
            }
            assert(self.entry_readable(i));
            let ghost fuel = steps_left as nat;
            match self.get_entry(i) {
                Some(FATEntry::Allocated { next }) => {
                    proof {
                        let ghost old_chain = chain@;
                        match self.walk(next, (fuel - 1) as nat) {
                            Some(Some(rest)) => {
                                assert(old_chain.push(i) + rest =~= old_chain + (seq![i] + rest));
                            },
                            _ => {},
                        }
                    }
                    chain.push(i);
                    i = next;
                    steps_left = steps_left - 1;
                },
                Some(FATEntry::AllocatedEOF) => {
                    proof {
                        assert(chain@.push(i) =~= chain@ + seq![i]);
                        self.lemma_walk_is_chain(start_index, big);
                    }
                    chain.push(i);
                    return Some(chain);
                },
                _ => {
                    proof {
                        self.lemma_walk_is_chain(start_index, big);
                    }
                    return None;
                },
            }
        }
    }

    /// A finished walk that yields a chain finishes with exactly as much
    /// fuel as the chain is long.
    proof fn lemma_walk_exact_fuel(&self, i: u32, f: nat, c: Seq<u32>)
        requires
            self.walk(i, f) == Some(Some(c)),
        ensures
            c.len() <= f,
            self.walk(i, c.len()) == Some(Some(c)),
        decreases f,
    {
        match self.spec_entry(i) {
            Some(FATEntry::Allocated { next }) => {
                let rest = self.walk(next, (f - 1) as nat).unwrap().unwrap();
                self.lemma_walk_exact_fuel(next, (f - 1) as nat, rest);
                assert(c =~= seq![i] + rest);
            },
            _ => {},
        }
    }

    /// A valid chain holds at most as many clusters as the table has: its
    /// clusters are distinct and below the cluster count.
    proof fn lemma_chain_len(&self, start: u32)
        requires
            self.chain_terminates(start),
            self.spec_chain(start) is Some,
        ensures
            self.spec_chain(start).unwrap().len() <= self.cluster_limit(),
    {
        self.lemma_chain_structure(start);
        let c = self.spec_chain(start).unwrap();
        assert forall|k: int| 0 <= k < c.len() implies #[trigger] c[k] < self.cluster_limit() by {
            if k < c.len() - 1 {
                assert(self.spec_entry(c[k]) is Some);
            } else {
                assert(self.spec_entry(c.last()) is Some);
            }
        }
        let s = c.map_values(|x: u32| x as int);
        assert(s.no_duplicates()) by {
            assert forall|j: int, k: int| 0 <= j < s.len() && 0 <= k < s.len() && j != k implies s[j]
                != s[k] by {
                assert(c[j] != c[k]);
            }
        }
        s.unique_seq_to_set();
        vstd::set_lib::lemma_int_range(0, self.cluster_limit() as int);
        assert(s.to_set().subset_of(vstd::set_lib::set_int_range(0, self.cluster_limit() as int))) by {
            assert forall|x: int| s.to_set().contains(x) implies vstd::set_lib::set_int_range(
                0,
                self.cluster_limit() as int,
            ).contains(x) by {
                let k = choose|k: int| 0 <= k < s.len() && s[k] == x;
                assert(c[k] < self.cluster_limit());
            }
        }
        vstd::set_lib::lemma_len_subset(
            s.to_set(),
            vstd::set_lib::set_int_range(0, self.cluster_limit() as int),
        );
    }

    /// When a walk runs out after more steps than the table has clusters, no
    /// valid chain starts there.
    proof fn lemma_no_chain_past_limit(&self, start: u32)
        requires
            self.walk(start, self.cluster_limit() as nat + 1) is None,
        ensures
            !self.chain_terminates(start) || self.spec_chain(start) is None,
    {
        if self.chain_terminates(start) && self.spec_chain(start) is Some {
            let f = choose|f: nat| #[trigger] self.walk(start, f) is Some;
            let c = self.spec_chain(start).unwrap();
            self.lemma_chain_len(start);
            self.lemma_walk_exact_fuel(start, f, c);
            self.lemma_walk_fuel(start, c.len(), self.cluster_limit() as nat + 1);
        }
    }

    pub fn get_entry(&self, index: u32) -> (r: Option<FATEntry>)
        requires
            self.entry_readable(index),
        ensures
            r == self.spec_entry(index),
    {
        if index >= self.num_clusters {
            return None;
        }
        // First 2 FAT entries are reserved

        if index < 2 {
            return Some(FATEntry::Unknown);
        }
        let len = self.raw_data.len();
        assert(4 * index + 4 <= len);
        let offset = index as usize * FAT32_ENTRY_LEN;
        // Mask out the top 4 bits, so 28-bit value
        let entry_raw = read_le_u32(self.raw_data.as_slice(), offset) % 0x1000_0000;

        Some(
            if entry_raw == 0 {
                FATEntry::Free
            } else if 2 <= entry_raw && entry_raw < self.num_clusters {
                FATEntry::Allocated { next: entry_raw }
            } else if entry_raw == 0xFFF_FFF7 {
                FATEntry::Bad
            } else if entry_raw >= 0xFFF_FFF8 {
                FATEntry::AllocatedEOF
            } else {
                FATEntry::Unknown
            },
        )
    }
}

/// Walks the entries of a table in index order.
pub struct FATIterator<'a> {
    pub fat: &'a FileAllocationTable,
    pub index: u32,
}

impl<'a> FATIterator<'a> {
    /// The entry at the current index, moving on to the next one; `None`
    /// once the index is past the last cluster.
    pub fn next(&mut self) -> (r: Option<FATEntry>)
        requires
            old(self).fat.readable(),
            old(self).index < u32::MAX,
        ensures
            r == old(self).fat.spec_entry(old(self).index),
            final(self).fat == old(self).fat,
            final(self).index == old(self).index + 1,
            (*final(self), r) == iter_step(*old(self)),
    {
        assert(self.fat.entry_readable(self.index));
        let item = self.fat.get_entry(self.index);
        self.index = self.index + 1;
        item
    }
}

/// One step of an iterator: the entry at its index, and the iterator moved
/// to the next index.
pub open spec fn iter_step<'a>(it: FATIterator<'a>) -> (FATIterator<'a>, Option<FATEntry>) {
    (FATIterator { fat: it.fat, index: (it.index + 1) as u32 }, it.fat.spec_entry(it.index))
}

/// The items `k` steps of an iterator yield.
pub open spec fn iter_items<'a>(it: FATIterator<'a>, k: nat) -> Seq<Option<FATEntry>>
    decreases k,
{
    if k == 0 {
        Seq::empty()
    } else {
        seq![iter_step(it).1] + iter_items(iter_step(it).0, (k - 1) as nat)
    }
}

/// An iterator over a table yields the table's entries in index order:
/// the `j`-th of `k` steps from index `i` yields the entry at `i + j`
/// (`None` past the last cluster).
pub proof fn lemma_iter_yields_entries<'a>(it: FATIterator<'a>, k: nat)
    requires
        it.index + k <= u32::MAX,
    ensures
        iter_items(it, k).len() == k,
        forall|j: int| 0 <= j < k ==> #[trigger] iter_items(it, k)[j] == it.fat.spec_entry((it.index + j) as u32),
    decreases k,
{
    if k > 0 {
        let next = iter_step(it).0;
        lemma_iter_yields_entries(next, (k - 1) as nat);
        assert forall|j: int| 0 <= j < k implies #[trigger] iter_items(it, k)[j] == it.fat.spec_entry(
            (it.index + j) as u32,
        ) by {
            if j > 0 {
                assert(iter_items(it, k)[j] == iter_items(next, (k - 1) as nat)[j - 1]);
            }
        }
    }
}

} // verus!
