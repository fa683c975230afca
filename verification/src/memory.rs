use crate::fault::Fault;
use vstd::prelude::*;

verus! {

/// The mathematical content of a [`Memory`]: an arena of segments indexed by
/// identifier, and the stack of identifiers waiting for reuse.
pub struct Heap {
    /// `segments[id]` is `Some(words)` while `id` is mapped and `None` while
    /// it waits in `free`.
    pub segments: Seq<Option<Seq<u32>>>,
    /// The identifiers that were given back, the most recent one last.
    pub free: Seq<u32>,
}

/// A segment of `length` words, all zero.
pub open spec fn zeros(length: nat) -> Seq<u32> {
    Seq::new(length, |i: int| 0u32)
}

impl Heap {
    /// The heap of a machine that has just been created: segment 0 is mapped
    /// and empty, and no identifier is free.
    pub open spec fn initial() -> Heap {
        Heap { segments: seq![Some(Seq::<u32>::empty())], free: Seq::<u32>::empty() }
    }

    /// Whether `id` names a segment now.
    pub open spec fn is_mapped(self, id: u32) -> bool {
        id < self.segments.len() && self.segments[id as int] is Some
    }

    /// The words of a mapped segment.
    pub open spec fn words(self, id: u32) -> Seq<u32>
        recommends
            self.is_mapped(id),
    {
        self.segments[id as int].unwrap()
    }

    /// Whether segment `id` is mapped and holds a word at `offset`.
    pub open spec fn in_bounds(self, id: u32, offset: u32) -> bool {
        self.is_mapped(id) && offset < self.words(id).len()
    }

    /// Every identifier below `segments.len()` is either mapped or held once
    /// in `free`, never both; segment 0 is always mapped; every identifier
    /// fits in a word.
    pub open spec fn wf(self) -> bool {
        &&& 0 < self.segments.len() <= 0x1_0000_0000
        &&& self.segments[0] is Some
        &&& forall|i: int|
            0 <= i < self.free.len() ==> (#[trigger] self.free[i]) < self.segments.len()
                && self.segments[self.free[i] as int] is None
        &&& forall|i: int, j: int|
            0 <= i < j < self.free.len() ==> self.free[i] != self.free[j]
        &&& forall|id: int|
            0 <= id < self.segments.len() && (#[trigger] self.segments[id]) is None
                ==> self.free.contains(id as u32)
    }

    /// Segment 0 replaced by `words`.
    pub open spec fn install(self, words: Seq<u32>) -> Heap {
        Heap { segments: self.segments.update(0, Some(words)), free: self.free }
    }

    /// The heap after a zeroed segment of `length` words has been mapped, and
    /// the identifier of that segment: the most recently freed identifier
    /// where one is free, else the number of segments so far. It fails only
    /// when all 2^32 identifiers are mapped.
    pub open spec fn map(self, length: u32) -> Result<(Heap, u32), Fault> {
        if self.free.len() > 0 {
            Ok(
                (
                    Heap {
                        segments: self.segments.update(
                            self.free.last() as int,
                            Some(zeros(length as nat)),
                        ),
                        free: self.free.drop_last(),
                    },
                    self.free.last(),
                ),
            )
        } else if self.segments.len() < 0x1_0000_0000 {
            Ok(
                (
                    Heap {
                        segments: self.segments.push(Some(zeros(length as nat))),
                        free: self.free,
                    },
                    self.segments.len() as u32,
                ),
            )
        } else {
            Err(Fault::OutOfSegments)
        }
    }

    /// The heap after `id` has been given back. Segment 0 cannot be given
    /// back, nor can an identifier that is not mapped.
    pub open spec fn unmap(self, id: u32) -> Result<Heap, Fault> {
        if id != 0 && self.is_mapped(id) {
            Ok(Heap { segments: self.segments.update(id as int, None), free: self.free.push(id) })
        } else {
            Err(Fault::SegmentFault)
        }
    }

    /// The word at `offset` in segment `id`.
    pub open spec fn read(self, id: u32, offset: u32) -> Result<u32, Fault> {
        if self.in_bounds(id, offset) {
            Ok(self.words(id)[offset as int])
        } else {
            Err(Fault::SegmentFault)
        }
    }

    /// The heap with `value` at `offset` in segment `id`.
    pub open spec fn write(self, id: u32, offset: u32, value: u32) -> Result<Heap, Fault> {
        if self.in_bounds(id, offset) {
            Ok(
                Heap {
                    segments: self.segments.update(
                        id as int,
                        Some(self.words(id).update(offset as int, value)),
                    ),
                    free: self.free,
                },
            )
        } else {
            Err(Fault::SegmentFault)
        }
    }

    /// Installing a program keeps the heap well formed.
    pub proof fn lemma_install_wf(self, words: Seq<u32>)
        requires
            self.wf(),
        ensures
            self.install(words).wf(),
    {
    }

    /// Mapping keeps the heap well formed. The identifier handed out is not
    /// 0 and was not mapped before; afterwards it names a segment of `length`
    /// zeros, and every other segment is as it was.
    pub proof fn lemma_map_wf(self, length: u32)
        requires
            self.wf(),
        ensures
            self.map(length) matches Ok((mapped, id)) ==> {
                &&& mapped.wf()
                &&& id != 0
                &&& !self.is_mapped(id)
                &&& mapped.is_mapped(id)
                &&& mapped.words(id) == zeros(length as nat)
                &&& forall|other: u32|
                    other != id ==> mapped.is_mapped(other) == self.is_mapped(other) && (
                    self.is_mapped(other) ==> mapped.words(other) == self.words(other))
            },
    {
        if let Ok((mapped, id)) = self.map(length) {
            if self.free.len() > 0 {
                assert forall|other: int|
                    0 <= other < mapped.segments.len() && (#[trigger] mapped.segments[other])
                        is None implies mapped.free.contains(other as u32) by {
                    let k = choose|k: int| 0 <= k < self.free.len() && self.free[k] == other as u32;
                    assert(mapped.free[k] == other as u32);
                }
            }
        }
    }

    /// Unmapping keeps the heap well formed. Afterwards the identifier is not
    /// mapped, and every other segment is as it was.
    pub proof fn lemma_unmap_wf(self, id: u32)
        requires
            self.wf(),
        ensures
            self.unmap(id) matches Ok(freed) ==> {
                &&& freed.wf()
                &&& !freed.is_mapped(id)
                &&& forall|other: u32|
                    other != id ==> freed.is_mapped(other) == self.is_mapped(other) && (
                    self.is_mapped(other) ==> freed.words(other) == self.words(other))
            },
    {
        if let Ok(freed) = self.unmap(id) {
            assert forall|other: int|
                0 <= other < freed.segments.len() && (#[trigger] freed.segments[other])
                    is None implies freed.free.contains(other as u32) by {
                if other == id {
                    assert(freed.free[self.free.len() as int] == id);
                } else {
                    let k = choose|k: int| 0 <= k < self.free.len() && self.free[k] == other as u32;
                    assert(freed.free[k] == other as u32);
                }
            }
        }
    }

    /// Writing a word keeps the heap well formed.
    pub proof fn lemma_write_wf(self, id: u32, offset: u32, value: u32)
        requires
            self.wf(),
        ensures
            self.write(id, offset, value) matches Ok(written) ==> written.wf(),
    {
    }

    /// Every word of a segment that has just been mapped reads as zero.
    pub proof fn lemma_fresh_segment_reads_zero(self, length: u32, offset: u32)
        requires
            self.wf(),
            offset < length,
        ensures
            self.map(length) matches Ok((mapped, id)) ==> mapped.read(id, offset) == Ok::<
                u32,
                Fault,
            >(0),
    {
    }

    /// The identifier that was given back last is the one that the next map
    /// hands out.
    pub proof fn lemma_map_reuses_last_unmapped(self, id: u32, length: u32)
        ensures
            self.unmap(id) matches Ok(freed) ==> freed.map(length) matches Ok((_, again))
                && again == id,
    {
    }

    /// Map, unmap the segment just mapped, map again: both maps hand out the
    /// same identifier, whatever the two lengths.
    pub proof fn lemma_map_unmap_map(self, first: u32, second: u32)
        requires
            self.wf(),
        ensures
            self.map(first) matches Ok((mapped, id)) ==> mapped.unmap(id) matches Ok(freed)
                && freed.map(second) matches Ok((_, again)) && again == id,
    {
    }
}

/// The segmented memory of the machine. It owns every segment and hands out
/// the identifiers that name them; an identifier that was given back is the
/// first to be handed out again.
#[derive(Clone, Debug, PartialEq)]
pub struct Memory {
    segments: Vec<Option<Vec<u32>>>,
    free: Vec<u32>,
}

spec fn segment_view(segment: Option<Vec<u32>>) -> Option<Seq<u32>> {
    match segment {
        Some(words) => Some(words@),
        None => None,
    }
}

impl View for Memory {
    type V = Heap;

    closed spec fn view(&self) -> Heap {
        Heap {
            segments: Seq::new(self.segments@.len(), |id: int| segment_view(self.segments@[id])),
            free: self.free@,
        }
    }
}

impl Memory {
    /// What every memory made by [`Memory::new`] satisfies, and every
    /// operation keeps.
    pub open spec fn wf(&self) -> bool {
        self@.wf()
    }

    /// A memory whose only segment is an empty segment 0.
    pub fn new() -> (memory: Memory)
        ensures
            memory.wf(),
            memory@ == Heap::initial(),
    {
        let mut segments: Vec<Option<Vec<u32>>> = Vec::new();
        segments.push(Some(Vec::new()));
        let memory = Memory { segments, free: Vec::new() };
        proof {
            assert(memory@.segments =~= Heap::initial().segments);
        }
        memory
    }

    /// Replaces the contents of segment 0 by `words`.
    pub fn install(&mut self, words: Vec<u32>)
        requires
            old(self).wf(),
        ensures
            final(self).wf(),
            final(self)@ == old(self)@.install(words@),
    {
        let ghost image = words@;
        self.segments[0] = Some(words);
        proof {
            assert(self@.segments =~= old(self)@.segments.update(0, Some(image)));
            old(self)@.lemma_install_wf(image);
        }
    }

    /// Maps a new segment of `length` zero words and returns its identifier:
    /// the most recently unmapped identifier where one is free, else the
    /// number of segments so far. Fails with `OutOfSegments`, changing
    /// nothing, only when all 2^32 identifiers are mapped.
    pub fn map(&mut self, length: u32) -> (result: Result<u32, Fault>)
        requires
            old(self).wf(),
        ensures
            final(self).wf(),
            match old(self)@.map(length) {
                Ok((heap, id)) => result == Ok::<u32, Fault>(id) && final(self)@ == heap,
                Err(fault) => result == Err::<u32, Fault>(fault) && final(self)@ == old(self)@,
            },
    {
        proof {
            old(self)@.lemma_map_wf(length);
        }
        if self.free.len() == 0 && self.segments.len() > u32::MAX as usize {
            return Err(Fault::OutOfSegments);
        }
        let words: Vec<u32> = vec![0u32; length as usize];
        assert(words@ =~= zeros(length as nat));
        match self.free.pop() {
            Some(id) => {
                self.segments[id as usize] = Some(words);
                proof {
                    let before = old(self)@;
                    assert(self@.segments =~= before.segments.update(
                        id as int,
                        Some(zeros(length as nat)),
                    ));
                }
                Ok(id)
            },
            None => {
                let id: u32 = self.segments.len() as u32;
                self.segments.push(Some(words));
                proof {
                    let before = old(self)@;
                    assert(self@.segments =~= before.segments.push(Some(zeros(length as nat))));
                }
                Ok(id)
            },
        }
    }

    /// Gives `id` back: its words are dropped, and it is the next identifier
    /// that [`Memory::map`] hands out. Segment 0 and identifiers that are not
    /// mapped are refused with `SegmentFault`, and nothing changes.
    pub fn unmap(&mut self, id: u32) -> (result: Result<(), Fault>)
        requires
            old(self).wf(),
        ensures
            final(self).wf(),
            match old(self)@.unmap(id) {
                Ok(heap) => result is Ok && final(self)@ == heap,
                Err(fault) => result == Err::<(), Fault>(fault) && final(self)@ == old(self)@,
            },
    {
        if id == 0 || !self.is_mapped(id) {
            return Err(Fault::SegmentFault);
        }
        self.segments[id as usize] = None;
        self.free.push(id);
        proof {
            let before = old(self)@;
            assert(self@.segments =~= before.segments.update(id as int, None));
            before.lemma_unmap_wf(id);
        }
        Ok(())
    }

    /// The word at `offset` in segment `id`; `SegmentFault` where `id` is not
    /// mapped or `offset` is past the end of the segment.
    pub fn read(&self, id: u32, offset: u32) -> (result: Result<u32, Fault>)
        ensures
            result == self@.read(id, offset),
    {
        match self.segment(id) {
            Some(words) => {
                if (offset as usize) < words.len() {
                    Ok(words[offset as usize])
                } else {
                    Err(Fault::SegmentFault)
                }
            },
            None => Err(Fault::SegmentFault),
        }
    }

    /// Stores `value` at `offset` in segment `id`; `SegmentFault`, and
    /// nothing changes, where `id` is not mapped or `offset` is past the end
    /// of the segment.
    pub fn write(&mut self, id: u32, offset: u32, value: u32) -> (result: Result<(), Fault>)
        requires
            old(self).wf(),
        ensures
            final(self).wf(),
            match old(self)@.write(id, offset, value) {
                Ok(heap) => result is Ok && final(self)@ == heap,
                Err(fault) => result == Err::<(), Fault>(fault) && final(self)@ == old(self)@,
            },
    {
        if !self.in_bounds(id, offset) {
            return Err(Fault::SegmentFault);
        }
        match &mut self.segments[id as usize] {
            Some(words) => {
                words[offset as usize] = value;
            },
            None => {},
        }
        proof {
            let before = old(self)@;
            assert(self@.segments =~= before.segments.update(
                id as int,
                Some(before.words(id).update(offset as int, value)),
            ));
            before.lemma_write_wf(id, offset, value);
        }
        Ok(())
    }

    fn in_bounds(&self, id: u32, offset: u32) -> (inside: bool)
        ensures
            inside == self@.in_bounds(id, offset),
    {
        match self.segment(id) {
            Some(words) => (offset as usize) < words.len(),
            None => false,
        }
    }

    /// Whether `id` names a segment that is mapped now.
    pub fn is_mapped(&self, id: u32) -> (mapped: bool)
        ensures
            mapped == self@.is_mapped(id),
    {
        (id as usize) < self.segments.len() && self.segments[id as usize].is_some()
    }

    /// The words of segment `id`, if it is mapped.
    pub fn segment(&self, id: u32) -> (words: Option<&Vec<u32>>)
        ensures
            match words {
                Some(words) => self@.is_mapped(id) && words@ == self@.words(id),
                None => !self@.is_mapped(id),
            },
    {
        if (id as usize) < self.segments.len() {
            self.segments[id as usize].as_ref()
        } else {
            None
        }
    }
}

} // verus!
