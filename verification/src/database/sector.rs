//! Sectors of a board and the write buffers that hold their data.
use vstd::prelude::*;

verus! {

/// What may be placed at a position of a board.
#[derive(Debug, Clone, Copy, PartialEq, Eq, Structural)]
pub enum MaskValue {
    NoPlace,
    Place,
    Adjacent,
}

/// The byte that stands for a mask value in a mask buffer.
pub open spec fn mask_byte(v: MaskValue) -> u8 {
    match v {
        MaskValue::NoPlace => 0u8,
        MaskValue::Place => 1u8,
        MaskValue::Adjacent => 2u8,
    }
}

impl MaskValue {
    /// The byte that stands for the value in a mask buffer (`as u8`).
    pub fn value(&self) -> (r: u8)
        ensures
            r == mask_byte(*self),
    {
        match self {
            MaskValue::NoPlace => 0,
            MaskValue::Place => 1,
            MaskValue::Adjacent => 2,
        }
    }

    /// The value a mask byte stands for; an unknown byte
    /// is handed back.
    pub fn try_from_primitive(byte: u8) -> (r: Result<MaskValue, u8>)
        ensures
            byte <= 2 ==> (r matches Ok(v) && mask_byte(v) == byte),
            byte > 2 ==> r == Err::<MaskValue, u8>(byte),
    {
        match byte {
            0 => Ok(MaskValue::NoPlace),
            1 => Ok(MaskValue::Place),
            2 => Ok(MaskValue::Adjacent),
            _ => Err(byte),
        }
    }
}

/// The buffers of a sector.
#[derive(Debug, Clone, Copy, PartialEq, Eq, Structural)]
pub enum SectorBuffer {
    Colors,
    Timestamps,
    Initial,
    Mask,
    Density,
}

impl SectorBuffer {
    /// Bytes per position in the buffer: 4 for timestamps and densities, 1 otherwise.
    pub fn size(&self) -> (r: usize)
        ensures
            r == (match self {
                SectorBuffer::Timestamps => 4usize,
                SectorBuffer::Density => 4usize,
                _ => 1usize,
            }),
    {
        match self {
            SectorBuffer::Colors => 1,
            SectorBuffer::Timestamps => 4,
            SectorBuffer::Initial => 1,
            SectorBuffer::Mask => 1,
            SectorBuffer::Density => 4,
        }
    }
}

/// One written byte.
#[derive(Debug, Clone, Copy, PartialEq, Eq, Structural)]
pub struct Change {
    pub position: usize,
    pub data: u8,
}

/// The four changes of a `u32` written little-endian at `start`.
pub open spec fn u32_changes(start: int, data: u32) -> Seq<Change> {
    seq![
        Change { position: start as usize, data: le_byte(data, 0) },
        Change { position: (start + 1) as usize, data: le_byte(data, 1) },
        Change { position: (start + 2) as usize, data: le_byte(data, 2) },
        Change { position: (start + 3) as usize, data: le_byte(data, 3) },
    ]
}

/// The changes kept after a write that makes the changes `added`, from the
/// kept changes `p`: they are kept while fewer than `limit` were, and once
/// dropped stay dropped until the next read back.
pub open spec fn pending_after_write(p: Option<Seq<Change>>, limit: int, added: Seq<Change>) -> Option<
    Seq<Change>,
> {
    match p {
        Some(c) => if c.len() < limit {
            Some(c + added)
        } else {
            None
        },
        None => None,
    }
}

/// The changes kept after writes that make the changes of `batches` in turn.
pub open spec fn pending_after_writes(
    p: Option<Seq<Change>>,
    limit: int,
    batches: Seq<Seq<Change>>,
) -> Option<Seq<Change>>
    decreases batches.len(),
{
    if batches.len() == 0 {
        p
    } else {
        pending_after_write(
            pending_after_writes(p, limit, batches.drop_last()),
            limit,
            batches.last(),
        )
    }
}

/// Whether changes are kept, at least `limit` of them.
pub open spec fn kept_at_least(p: Option<Seq<Change>>, limit: int) -> bool {
    match p {
        Some(c) => c.len() >= limit,
        None => false,
    }
}

/// The changes of `batches`, one batch after another.
pub open spec fn joined_changes(batches: Seq<Seq<Change>>) -> Seq<Change>
    decreases batches.len(),
{
    if batches.len() == 0 {
        Seq::empty()
    } else {
        joined_changes(batches.drop_last()) + batches.last()
    }
}

/// Law: after a read back, writes of one byte or of a `u32` (at most four
/// changes each) leave the changes kept exactly while no write found `limit`
/// of them kept; kept changes are all the changes made, in order, and number
/// at most `limit + 3`. A read back sends the whole buffer exactly where they
/// were dropped.
pub proof fn lemma_changes_after_writes(limit: usize, batches: Seq<Seq<Change>>)
    requires
        forall|i: int| 0 <= i < batches.len() ==> 1 <= #[trigger] batches[i].len() <= 4,
    ensures
        pending_after_writes(Some(Seq::empty()), limit as int, batches) is None <==> exists|k: int|
            0 <= k < batches.len() && kept_at_least(
                #[trigger] pending_after_writes(Some(Seq::empty()), limit as int, batches.take(k)),
                limit as int,
            ),
        pending_after_writes(Some(Seq::empty()), limit as int, batches) matches Some(c) ==> c
            == joined_changes(batches) && c.len() <= limit + 3,
    decreases batches.len(),
{
    let start = Some(Seq::<Change>::empty());
    if batches.len() > 0 {
        let prev = batches.drop_last();
        assert forall|i: int| 0 <= i < prev.len() implies 1 <= #[trigger] prev[i].len() <= 4 by {
            assert(prev[i] == batches[i]);
        }
        lemma_changes_after_writes(limit, prev);
        let n = batches.len() - 1;
        assert(batches.take(n) == prev);
        assert(batches[n] == batches.last());
        assert forall|k: int| 0 <= k < prev.len() implies #[trigger] batches.take(k) == prev.take(k) by {}
        if pending_after_writes(start, limit as int, prev) is None {
            let k = choose|k: int|
                0 <= k < prev.len() && kept_at_least(
                    #[trigger] pending_after_writes(start, limit as int, prev.take(k)),
                    limit as int,
                );
            assert(batches.take(k) == prev.take(k));
        } else {
            let c = pending_after_writes(start, limit as int, prev)->0;
            if c.len() >= limit {
                assert(pending_after_writes(start, limit as int, batches.take(n)) == Some(c));
            } else {
                assert forall|k: int| 0 <= k < batches.len() implies !kept_at_least(
                    #[trigger] pending_after_writes(start, limit as int, batches.take(k)),
                    limit as int,
                ) by {
                    if k < n {
                        assert(batches.take(k) == prev.take(k));
                    } else {
                        assert(batches.take(k) == prev);
                    }
                }
            }
        }
    }
}

/// What a reader of a buffer is sent: the changes since its last read, or the
/// whole buffer.
pub enum BufferRead {
    Delta(Vec<Change>),
    Full(Vec<u8>),
}

/// The data after the changes are written in order.
pub open spec fn apply_changes(data: Seq<u8>, changes: Seq<Change>) -> Seq<u8>
    decreases changes.len(),
{
    if changes.len() == 0 {
        data
    } else {
        apply_changes(data, changes.drop_last()).update(
            changes.last().position as int,
            changes.last().data,
        )
    }
}

/// Byte `k` (0 to 3) of `v` in little-endian order.
pub open spec fn le_byte(v: u32, k: int) -> u8 {
    if k == 0 {
        (v & 0xff) as u8
    } else if k == 1 {
        ((v >> 8) & 0xff) as u8
    } else if k == 2 {
        ((v >> 16) & 0xff) as u8
    } else {
        ((v >> 24) & 0xff) as u8
    }
}

/// The value of four bytes in little-endian order.
pub open spec fn le_value(b0: u8, b1: u8, b2: u8, b3: u8) -> u32 {
    (b0 as u32) | ((b1 as u32) << 8) | ((b2 as u32) << 16) | ((b3 as u32) << 24)
}

/// `data` with `v` written in little-endian order at `start`.
pub open spec fn put_u32_le(data: Seq<u8>, start: int, v: u32) -> Seq<u8> {
    data.update(start, le_byte(v, 0)).update(start + 1, le_byte(v, 1)).update(
        start + 2,
        le_byte(v, 2),
    ).update(start + 3, le_byte(v, 3))
}

/// The value stored little-endian at `start`.
pub open spec fn get_u32_le(data: Seq<u8>, start: int) -> u32 {
    le_value(data[start], data[start + 1], data[start + 2], data[start + 3])
}

/// Reading four bytes back gives the value written there.
pub proof fn lemma_le_round_trip(v: u32)
    ensures
        le_value(le_byte(v, 0), le_byte(v, 1), le_byte(v, 2), le_byte(v, 3)) == v,
{
    assert(((v & 0xff) as u8 as u32) | ((((v >> 8) & 0xff) as u8 as u32) << 8) | ((((v >> 16)
        & 0xff) as u8 as u32) << 16) | ((((v >> 24) & 0xff) as u8 as u32) << 24) == v)
        by (bit_vector);
}

/// Law: the value written little-endian at a place is read back from it, and
/// the values at the other 4-byte places are left as they were.
pub proof fn lemma_put_get_u32(data: Seq<u8>, start: int, other: int, v: u32)
    requires
        0 <= start,
        start + 4 <= data.len(),
        0 <= other,
        other + 4 <= data.len(),
        other + 4 <= start || start + 4 <= other,
    ensures
        get_u32_le(put_u32_le(data, start, v), start) == v,
        get_u32_le(put_u32_le(data, start, v), other) == get_u32_le(data, other),
        put_u32_le(data, start, v).len() == data.len(),
{
    lemma_le_round_trip(v);
    let d = put_u32_le(data, start, v);
    assert(d[start] == le_byte(v, 0));
    assert(d[start + 1] == le_byte(v, 1));
    assert(d[start + 2] == le_byte(v, 2));
    assert(d[start + 3] == le_byte(v, 3));
    assert(d[other] == data[other]);
    assert(d[other + 1] == data[other + 1]);
    assert(d[other + 2] == data[other + 2]);
    assert(d[other + 3] == data[other + 3]);
}

fn put_u32(data: &mut Vec<u8>, start: usize, v: u32)
    requires
        start + 4 <= old(data)@.len(),
    ensures
        final(data)@ == put_u32_le(old(data)@, start as int, v),
{
    assert(start + 4 <= data.len());
    let b0 = (v & 0xff) as u8;
    let b1 = ((v >> 8) & 0xff) as u8;
    let b2 = ((v >> 16) & 0xff) as u8;
    let b3 = ((v >> 24) & 0xff) as u8;
    data.set(start, b0);
    data.set(start + 1, b1);
    data.set(start + 2, b2);
    data.set(start + 3, b3);
}

fn get_u32(data: &Vec<u8>, start: usize) -> (r: u32)
    requires
        start + 4 <= data@.len(),
    ensures
        r == get_u32_le(data@, start as int),
{
    assert(start + 4 <= data.len());
    (data[start] as u32) | ((data[start + 1] as u32) << 8) | ((data[start + 2] as u32) << 16) | ((
    data[start + 3] as u32) << 24)
}

/// A byte buffer that remembers the changes written since it was last read
/// back, up to a limit after which a reader is sent the whole buffer.
pub struct WriteBuffer {
    data: Vec<u8>,
    recent_changes: Option<Vec<Change>>,
    readback_limit: usize,
    base: Ghost<Seq<u8>>,
}

impl View for WriteBuffer {
    type V = Seq<u8>;

    /// The bytes of the buffer.
    closed spec fn view(&self) -> Seq<u8> {
        self.data@
    }
}

impl WriteBuffer {
    /// The changes written since the last read back, when they are still kept.
    pub closed spec fn pending(&self) -> Option<Seq<Change>> {
        match &self.recent_changes {
            Some(c) => Some(c@),
            None => None,
        }
    }

    /// The data as the last reader was sent it.
    pub closed spec fn base(&self) -> Seq<u8> {
        self.base@
    }

    /// The number of changes kept before falling back to the whole buffer.
    pub closed spec fn limit(&self) -> usize {
        self.readback_limit
    }

    /// The kept changes turn the data the last reader was sent into the data,
    /// and there are at most three more of them than the limit (a write of a
    /// `u32` adds four at once).
    pub closed spec fn wf(&self) -> bool {
        match self.pending() {
            Some(c) => {
                &&& c.len() <= self.readback_limit + 3
                &&& self.base.len() == self.data@.len()
                &&& forall|i: int| 0 <= i < c.len() ==> #[trigger] c[i].position < self.data@.len()
                &&& apply_changes(self.base@, c) == self.data@
            },
            None => true,
        }
    }

    /// A buffer over `data` that no reader has read yet; at most
    /// `readback_limit` changes are kept for a reader.
    pub fn new(data: Vec<u8>, readback_limit: usize) -> (r: Self)
        ensures
            r.wf(),
            r@ == data@,
            r.pending() is None,
            r.limit() == readback_limit,
    {
        Self { data, recent_changes: None, readback_limit, base: Ghost(Seq::empty()) }
    }

    /// Writes a byte; the change is kept while fewer than the limit are.
    pub fn write(&mut self, position: usize, data: u8)
        requires
            old(self).wf(),
            position < old(self)@.len(),
        ensures
            final(self).wf(),
            final(self)@ == old(self)@.update(position as int, data),
            final(self).base() == old(self).base(),
            final(self).limit() == old(self).limit(),
            final(self).pending() == pending_after_write(
                old(self).pending(),
                old(self).limit() as int,
                seq![Change { position, data }],
            ),
    {
        self.data.set(position, data);
        let limit = self.readback_limit;
        let keep = match &self.recent_changes {
            Some(changes) => changes.len() < limit,
            None => true,
        };
        if !keep {
            self.recent_changes = None;
        } else if let Some(changes) = self.recent_changes.as_mut() {
            let ghost before = changes@;
            changes.push(Change { position, data });
            assert(changes@.drop_last() == before);
        }
    }

    /// Writes a `u32` little-endian at index `position` of 4-byte values; the
    /// four byte changes are kept while fewer than the limit are.
    pub fn write_u32(&mut self, position: usize, data: u32)
        requires
            old(self).wf(),
            position * 4 + 4 <= old(self)@.len(),
        ensures
            final(self).wf(),
            final(self)@ == put_u32_le(old(self)@, position * 4, data),
            final(self).base() == old(self).base(),
            final(self).limit() == old(self).limit(),
            final(self).pending() == pending_after_write(
                old(self).pending(),
                old(self).limit() as int,
                u32_changes(position * 4, data),
            ),
    {
        assert(position * 4 + 4 <= self.data.len());
        let start = position * 4;
        let ghost old_data = self.data@;
        let b0 = (data & 0xff) as u8;
        let b1 = ((data >> 8) & 0xff) as u8;
        let b2 = ((data >> 16) & 0xff) as u8;
        let b3 = ((data >> 24) & 0xff) as u8;
        assert(b0 == le_byte(data, 0) && b1 == le_byte(data, 1) && b2 == le_byte(data, 2) && b3
            == le_byte(data, 3));
        self.data.set(start, b0);
        self.data.set(start + 1, b1);
        self.data.set(start + 2, b2);
        self.data.set(start + 3, b3);
        let limit = self.readback_limit;
        let keep = match &self.recent_changes {
            Some(changes) => changes.len() < limit,
            None => true,
        };
        if !keep {
            self.recent_changes = None;
        } else if let Some(changes) = self.recent_changes.as_mut() {
            let ghost c0 = changes@;
            changes.push(Change { position: start, data: b0 });
            let ghost c1 = changes@;
            changes.push(Change { position: start + 1, data: b1 });
            let ghost c2 = changes@;
            changes.push(Change { position: start + 2, data: b2 });
            let ghost c3 = changes@;
            changes.push(Change { position: start + 3, data: b3 });
            assert(changes@.drop_last() == c3);
            assert(c3.drop_last() == c2);
            assert(c2.drop_last() == c1);
            assert(c1.drop_last() == c0);
            assert(apply_changes(self.base@, c1) == old_data.update(start as int, b0));
            assert(apply_changes(self.base@, c2) == old_data.update(start as int, b0).update(
                start + 1,
                b1,
            ));
            assert(apply_changes(self.base@, c3) == old_data.update(start as int, b0).update(
                start + 1,
                b1,
            ).update(start + 2, b2));
        }
    }

    /// The bytes of the buffer.
    pub fn data(&self) -> (r: &Vec<u8>)
        ensures
            r@ == self@,
    {
        &self.data
    }

    /// The byte at `position`.
    pub fn read(&self, position: usize) -> (r: u8)
        requires
            position < self@.len(),
        ensures
            r == self@[position as int],
    {
        self.data[position]
    }

    /// The `u32` stored little-endian at index `position` of 4-byte values.
    pub fn read_u32(&self, position: usize) -> (r: u32)
        requires
            position * 4 + 4 <= self@.len(),
        ensures
            r == get_u32_le(self@, position * 4),
    {
        assert(position * 4 + 4 <= self.data.len());
        let start = position * 4;
        (self.data[start] as u32) | ((self.data[start + 1] as u32) << 8) | ((self.data[start
            + 2] as u32) << 16) | ((self.data[start + 3] as u32) << 24)
    }

    /// What a reader is sent: the changes since the last read back while they
    /// are kept, else the whole buffer. Either way the reader is up to date:
    /// the changes turn what it was last sent into the data. Changes are kept
    /// again from now on.
    pub fn readback(&mut self) -> (r: BufferRead)
        requires
            old(self).wf(),
        ensures
            final(self).wf(),
            final(self)@ == old(self)@,
            final(self).limit() == old(self).limit(),
            final(self).base() == old(self)@,
            final(self).pending() == Some(Seq::<Change>::empty()),
            match r {
                BufferRead::Delta(c) => old(self).pending() == Some(c@) && apply_changes(
                    old(self).base(),
                    c@,
                ) == old(self)@ && c@.len() <= old(self).limit() + 3,
                BufferRead::Full(d) => old(self).pending() is None && d@ == old(self)@,
            },
    {
        let current = Ghost(self.data@);
        match self.recent_changes.take() {
            Some(changes) => {
                self.recent_changes = Some(Vec::new());
                self.base = current;
                BufferRead::Delta(changes)
            },
            None => {
                self.recent_changes = Some(Vec::new());
                self.base = current;
                BufferRead::Full(self.data.clone())
            },
        }
    }
}

/// Law: a well-formed buffer keeps at most three changes more than its limit;
/// beyond that a reader is sent the whole buffer.
pub proof fn lemma_pending_bounded(buffer: &WriteBuffer)
    requires
        buffer.wf(),
    ensures
        buffer.pending() matches Some(c) ==> c.len() <= buffer.limit() + 3,
{
}

/// A stored sector row: its board, its index and its mask and initial buffers.
pub struct SectorModel {
    pub board: i32,
    pub sector: i32,
    pub mask: Vec<u8>,
    pub initial: Vec<u8>,
}

/// A stored placement row.
#[derive(Debug, Clone, Copy)]
pub struct PlacementModel {
    pub id: i64,
    pub board: i32,
    pub position: i64,
    pub color: i16,
    pub timestamp: i32,
    pub user_id: i32,
}

/// The place in a sector of `size` positions where a placement lands.
pub open spec fn slot_of(p: PlacementModel, size: nat) -> int {
    ((p.position as usize) as int) % (size as int)
}

/// The colors after the placements are applied in order over the initial colors.
pub open spec fn colors_after(initial: Seq<u8>, ps: Seq<PlacementModel>) -> Seq<u8>
    decreases ps.len(),
{
    if ps.len() == 0 {
        initial
    } else {
        colors_after(initial, ps.drop_last()).update(
            slot_of(ps.last(), initial.len()),
            ps.last().color as u8,
        )
    }
}

/// The timestamps (4 bytes each, little-endian) after the placements are applied in order.
pub open spec fn timestamps_after(size: nat, ps: Seq<PlacementModel>) -> Seq<u8>
    decreases ps.len(),
{
    if ps.len() == 0 {
        Seq::new(size * 4, |i: int| 0u8)
    } else {
        put_u32_le(
            timestamps_after(size, ps.drop_last()),
            slot_of(ps.last(), size) * 4,
            ps.last().timestamp as u32,
        )
    }
}

/// How many of the placements land on place `i`.
pub open spec fn slot_count(ps: Seq<PlacementModel>, size: nat, i: int) -> nat
    decreases ps.len(),
{
    if ps.len() == 0 {
        0
    } else {
        slot_count(ps.drop_last(), size, i) + (if slot_of(ps.last(), size) == i {
            1nat
        } else {
            0nat
        })
    }
}

/// The densities (4 bytes each, little-endian): for each place, the number of
/// placements on it.
pub open spec fn density_after(size: nat, ps: Seq<PlacementModel>) -> Seq<u8>
    decreases ps.len(),
{
    if ps.len() == 0 {
        Seq::new(size * 4, |i: int| 0u8)
    } else {
        let prev = density_after(size, ps.drop_last());
        let at = slot_of(ps.last(), size) * 4;
        put_u32_le(prev, at, (get_u32_le(prev, at) + 1) as u32)
    }
}

/// No place is landed on more often than a `u32` counts.
pub open spec fn densities_fit(ps: Seq<PlacementModel>, size: nat) -> bool {
    forall|i: int| 0 <= i < size ==> #[trigger] slot_count(ps, size, i) <= u32::MAX
}

/// A sector: its board and index, and its buffers.
pub struct Sector {
    pub board: i32,
    pub index: i32,
    pub colors: WriteBuffer,
    pub timestamps: WriteBuffer,
    pub mask: WriteBuffer,
    pub initial: WriteBuffer,
    pub density: WriteBuffer,
}

proof fn lemma_slot_count_prefix(ps: Seq<PlacementModel>, size: nat, i: int, k: int)
    requires
        0 <= k <= ps.len(),
    ensures
        slot_count(ps.take(k), size, i) <= slot_count(ps, size, i),
    decreases ps.len(),
{
    if k < ps.len() {
        assert(ps.drop_last().take(k) == ps.take(k));
        lemma_slot_count_prefix(ps.drop_last(), size, i, k);
    } else {
        assert(ps.take(k) == ps);
    }
}

/// Law: the density of each place counts the placements on it.
pub proof fn lemma_density_counts(size: nat, ps: Seq<PlacementModel>, i: int)
    requires
        size > 0,
        0 <= i < size,
        densities_fit(ps, size),
    ensures
        density_after(size, ps).len() == size * 4,
        get_u32_le(density_after(size, ps), i * 4) == slot_count(ps, size, i),
    decreases ps.len(),
{
    if ps.len() == 0 {
        let z = density_after(size, ps);
        assert(z[i * 4] == 0u8 && z[i * 4 + 1] == 0u8 && z[i * 4 + 2] == 0u8 && z[i * 4 + 3] == 0u8);
        assert(le_value(0u8, 0u8, 0u8, 0u8) == 0u32) by (bit_vector);
    } else {
        let prev_ps = ps.drop_last();
        let s = slot_of(ps.last(), size);
        assert(0 <= s < size);
        assert forall|j: int| 0 <= j < size implies #[trigger] slot_count(prev_ps, size, j)
            <= u32::MAX by {
            assert(slot_count(ps, size, j) <= u32::MAX);
        }
        lemma_density_counts(size, prev_ps, i);
        lemma_density_counts(size, prev_ps, s);
        let prev = density_after(size, prev_ps);
        let v = (get_u32_le(prev, s * 4) + 1) as u32;
        assert(slot_count(ps, size, s) <= u32::MAX);
        if s != i {
            lemma_put_get_u32(prev, s * 4, i * 4, v);
        } else {
            lemma_le_round_trip(v);
            let d = put_u32_le(prev, s * 4, v);
            assert(d[s * 4] == le_byte(v, 0));
            assert(d[s * 4 + 1] == le_byte(v, 1));
            assert(d[s * 4 + 2] == le_byte(v, 2));
            assert(d[s * 4 + 3] == le_byte(v, 3));
        }
    }
}

/// The sector that a stored row and its placements make, the placements taken
/// in the order given (by timestamp, then id): colors start as the initial
/// colors and each placement sets the color and timestamp of its place and
/// adds one to its density. At most `readback_limit` changes are kept for a
/// reader of each buffer.
pub fn sector_from_model(
    sector: SectorModel,
    placements: &[PlacementModel],
    readback_limit: usize,
) -> (r: Sector)
    requires
        sector.initial@.len() * 4 <= usize::MAX,
        sector.initial@.len() > 0 || placements.len() == 0,
        densities_fit(placements@, sector.initial@.len()),
    ensures
        r.board == sector.board,
        r.index == sector.sector,
        r.initial@ == sector.initial@,
        r.mask@ == sector.mask@,
        r.colors@ == colors_after(sector.initial@, placements@),
        r.timestamps@ == timestamps_after(sector.initial@.len(), placements@),
        r.density@ == density_after(sector.initial@.len(), placements@),
{
    let index = sector.sector;
    let board = sector.board;
    let sector_size = sector.initial.len();
    let ghost size = sector_size as nat;
    let mut colors = sector.initial.clone();
    let mut timestamps: Vec<u8> = vec![0u8; sector_size * 4];
    let mut density: Vec<u8> = vec![0u8; sector_size * 4];
    assert(timestamps@ =~= timestamps_after(size, placements@.take(0)));
    assert(density@ =~= density_after(size, placements@.take(0)));
    assert(placements@.take(0) =~= Seq::<PlacementModel>::empty());
    let mut k: usize = 0;
    while k < placements.len()
        invariant
            k <= placements.len(),
            sector_size == sector.initial@.len(),
            sector_size * 4 <= usize::MAX,
            sector_size > 0 || placements.len() == 0,
            densities_fit(placements@, size),
            size == sector_size,
            colors@ == colors_after(sector.initial@, placements@.take(k as int)),
            timestamps@ == timestamps_after(size, placements@.take(k as int)),
            density@ == density_after(size, placements@.take(k as int)),
            timestamps@.len() == sector_size * 4,
            density@.len() == sector_size * 4,
            colors@.len() == sector_size,
        decreases placements.len() - k,
    {
        let ghost t = placements@.take(k + 1);
        assert(t.drop_last() == placements@.take(k as int));
        assert(t.last() == placements@[k as int]);
        let p = placements[k];
        let idx = (p.position as usize) % sector_size;
        assert(idx == slot_of(p, size));
        colors.set(idx, p.color as u8);
        put_u32(&mut timestamps, idx * 4, p.timestamp as u32);
        proof {
            assert forall|j: int| 0 <= j < size implies #[trigger] slot_count(t, size, j)
                <= u32::MAX by {
                lemma_slot_count_prefix(placements@, size, j, k + 1);
            }
            assert forall|j: int| 0 <= j < size implies #[trigger] slot_count(
                t.drop_last(),
                size,
                j,
            ) <= u32::MAX by {
                lemma_slot_count_prefix(placements@, size, j, k as int);
            }
            lemma_density_counts(size, t, idx as int);
            lemma_density_counts(size, t.drop_last(), idx as int);
        }
        let current = get_u32(&density, idx * 4);
        put_u32(&mut density, idx * 4, current + 1);
        k = k + 1;
    }
    assert(placements@.take(placements.len() as int) == placements@);
    let initial = WriteBuffer::new(sector.initial, readback_limit);
    let mask = WriteBuffer::new(sector.mask, readback_limit);
    let colors = WriteBuffer::new(colors, readback_limit);
    let timestamps = WriteBuffer::new(timestamps, readback_limit);
    let density = WriteBuffer::new(density, readback_limit);
    Sector { board, index, initial, mask, colors, timestamps, density }
}

/// The first and last position that a sector of `size` positions covers on
/// its board.
pub open spec fn sector_span(size: usize, index: i32) -> (int, int) {
    (size * index, size * index + size - 1)
}

/// The positions a sector covers (`sector_from_model`): from `size * index` to
/// `size * index + size - 1`, as `i64`.
pub fn sector_positions(size: usize, index: i32) -> (r: (i64, i64))
    requires
        size <= i64::MAX,
        i64::MIN <= size * index <= i64::MAX,
        size * index + size <= i64::MAX,
    ensures
        r.0 == sector_span(size, index).0,
        r.1 == sector_span(size, index).1,
{
    let s = size as i64;
    let i = index as i64;
    let start = s * i;
    assert(s == 0 ==> start == 0) by (nonlinear_arith)
        requires
            start == s * i,
    ;
    let end = start + s - 1;
    (start, end)
}

fn filled(byte: u8, size: usize) -> (r: Vec<u8>)
    ensures
        r@ == Seq::new(size as nat, |k: int| byte),
{
    let mut v: Vec<u8> = Vec::new();
    let mut k: usize = 0;
    while k < size
        invariant
            k <= size,
            v@ == Seq::new(k as nat, |j: int| byte),
        decreases size - k,
    {
        v.push(byte);
        k = k + 1;
        assert(v@ =~= Seq::new(k as nat, |j: int| byte));
    }
    v
}

impl Sector {
    /// The mask and initial colors of a new sector: every
    /// position is masked off, so a new board needs activating before use, and
    /// every initial color is zero.
    pub fn blank_buffers(size: usize) -> (r: (Vec<u8>, Vec<u8>))
        ensures
            r.0@ == Seq::new(size as nat, |k: int| mask_byte(MaskValue::NoPlace)),
            r.1@ == Seq::new(size as nat, |k: int| 0u8),
    {
        let mask = filled(MaskValue::NoPlace.value(), size);
        let initial = filled(0, size);
        (mask, initial)
    }

    /// The bytes that saving a buffer of the sector stores;
    /// only the initial colors and the mask are ever stored.
    pub fn saved_data(&self, buffer: SectorBuffer) -> (r: Vec<u8>)
        requires
            buffer == SectorBuffer::Initial || buffer == SectorBuffer::Mask,
        ensures
            buffer == SectorBuffer::Initial ==> r@ == self.initial@,
            buffer == SectorBuffer::Mask ==> r@ == self.mask@,
    {
        match buffer {
            SectorBuffer::Initial => self.initial.data.clone(),
            _ => self.mask.data.clone(),
        }
    }
}

} // verus!
