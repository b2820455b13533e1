//! Reading the owner column out of a socket table as the operating system
//! returns it: a little-endian `u32` row count followed by fixed-size rows,
//! each holding the owning process id at a fixed offset.
use vstd::prelude::*;

verus! {

/// The little-endian `u32` stored at `offset`.
pub open spec fn u32_le_at(buffer: Seq<u8>, offset: int) -> int {
    buffer[offset] + buffer[offset + 1] * 0x100 + buffer[offset + 2] * 0x1_0000 + buffer[offset + 3] * 0x100_0000
}

/// The number of rows that are both announced by the header and wholly
/// present in the buffer; zero when the buffer cannot even hold the header.
pub open spec fn readable_rows(buffer: Seq<u8>, row_size: int) -> int {
    if buffer.len() < 4 {
        0
    } else {
        let announced = u32_le_at(buffer, 0);
        let present = (buffer.len() - 4) / row_size;
        if announced < present { announced } else { present }
    }
}

/// Where the owner of row `index` is stored.
pub open spec fn owner_offset(index: int, row_size: int, pid_offset: int) -> int {
    4 + index * row_size + pid_offset
}

fn read_u32_le(buffer: &[u8], offset: usize) -> (v: u32)
    requires
        offset + 4 <= buffer@.len(),
    ensures
        v == u32_le_at(buffer@, offset as int),
{
    buffer[offset] as u32 + buffer[offset + 1] as u32 * 0x100 + buffer[offset + 2] as u32 * 0x1_0000
        + buffer[offset + 3] as u32 * 0x100_0000
}

/// The owning process ids of the rows of a socket table, in row order.
/// `row_size` is the size of one row and `pid_offset` where in a row the
/// owner is stored.  Rows announced by the header but cut off by the end of
/// the buffer are not read.
pub fn owner_pids_from_table(buffer: &[u8], row_size: usize, pid_offset: usize) -> (pids: Vec<u32>)
    requires
        row_size > 0,
        pid_offset + 4 <= row_size,
    ensures
        pids@.len() == readable_rows(buffer@, row_size as int),
        buffer@.len() < 4 ==> pids@.len() == 0,
        buffer@.len() >= 4 ==> {
            &&& pids@.len() <= u32_le_at(buffer@, 0)
            &&& 4 + pids@.len() * row_size <= buffer@.len()
            &&& pids@.len() < u32_le_at(buffer@, 0) ==> 4 + (pids@.len() + 1) * row_size > buffer@.len()
        },
        forall|i: int|
            0 <= i < pids@.len() ==> #[trigger] pids@[i] == u32_le_at(
                buffer@,
                owner_offset(i, row_size as int, pid_offset as int),
            ),
{
    let mut pids: Vec<u32> = Vec::new();
    let len = buffer.len();
    if len < 4 {
        return pids;
    }
    let announced = read_u32_le(buffer, 0) as usize;
    let present = (buffer.len() - 4) / row_size;
    let rows = if announced < present { announced } else { present };
    assert(rows * row_size <= buffer@.len() - 4) by (nonlinear_arith)
        requires
            rows <= present,
            present == (buffer@.len() - 4) / (row_size as int),
            row_size > 0,
            buffer@.len() >= 4,
    ;
    assert(rows < announced ==> (rows + 1) * row_size > buffer@.len() - 4) by (nonlinear_arith)
        requires
            rows < announced ==> rows == present,
            present == (buffer@.len() - 4) / (row_size as int),
            row_size > 0,
            buffer@.len() >= 4,
    ;
    let mut index: usize = 0;
    while index < rows
        invariant
            len == buffer@.len(),
            rows == readable_rows(buffer@, row_size as int),
            rows * row_size <= buffer@.len() - 4,
            index <= rows,
            row_size > 0,
            pid_offset + 4 <= row_size,
            pids@.len() == index,
            forall|i: int|
                0 <= i < index ==> #[trigger] pids@[i] == u32_le_at(
                    buffer@,
                    owner_offset(i, row_size as int, pid_offset as int),
                ),
        decreases rows - index,
    {
        assert((index + 1) * row_size <= rows * row_size) by (nonlinear_arith)
            requires
                index + 1 <= rows,
                row_size > 0,
        ;
        assert(index * row_size + row_size == (index + 1) * row_size) by (nonlinear_arith);
        let offset = 4 + index * row_size + pid_offset;
        pids.push(read_u32_le(buffer, offset));
        index = index + 1;
    }
    pids
}

} // verus!
