use rom_recompress::checked_get;
use rom_recompress::error::Error;
use rom_recompress::rom::{
    conv_addr, extract_ptr, splice_bytes, splice_ptr, Rom, TableDescriptor, TableStep,
};

#[test]
fn conv_addr_values() {
    // Total and pure: a mapped address keeps its low 22 bits, an unmapped
    // address folds to 0. 0x408000 itself carries the 0x8000 select bit, so
    // it maps to linear offset 0x8000.
    assert_eq!(conv_addr(0xC4C008), 0x04C008);
    assert_eq!(conv_addr(0x000000), 0);
    assert_eq!(conv_addr(0x408000), 0x8000);
    assert_eq!(conv_addr(0x3F7FFF), 0);
}

#[test]
fn pointer_round_trip() {
    let mut buf = vec![0x12, 0x34, 0x56, 0x78];
    assert_eq!(extract_ptr(&buf, 0, 2).unwrap(), 0x3412);
    assert_eq!(extract_ptr(&buf, 0, 4).unwrap(), 0x78563412);
    splice_ptr(&mut buf, 1, 2, 0xABCD).unwrap();
    assert_eq!(buf, vec![0x12, 0xCD, 0xAB, 0x78]);
    assert_eq!(extract_ptr(&buf, 1, 2).unwrap(), 0xABCD);
}

#[test]
fn pointer_errors() {
    let mut buf = vec![0u8; 4];
    assert_eq!(
        extract_ptr(&buf, 3, 2).unwrap_err(),
        Error::ExtractPtrError(checked_get::Error::EndIndexError(5, 4))
    );
    assert_eq!(
        extract_ptr(&buf, 5, 1).unwrap_err(),
        Error::ExtractPtrError(checked_get::Error::StartIndexError(5, 4))
    );
    assert_eq!(
        splice_ptr(&mut buf, 4, 1, 0xFF).unwrap_err(),
        Error::SplicePtrError(checked_get::Error::EndIndexError(5, 4))
    );
}

#[test]
fn splice_shifts_bytes() {
    let mut v = vec![1u8, 2, 3, 4, 5];
    splice_bytes(&mut v, 1, 3, &[9]);
    assert_eq!(v, vec![1, 9, 4, 5]);
}

#[test]
fn single_asset_pipeline_credits_savings() {
    // One LZSS asset at linear offset 0: length 4, one literal 0xAA.
    let rom_bytes = vec![0x04, 0x00, 0x01, 0xAA];
    let mut rom = Rom::new(rom_bytes);
    let job = rom.single_begin(0xC00000).unwrap();
    assert_eq!(job.offset, 0);
    assert_eq!(job.orig_size, 4);
    assert_eq!(job.bytes, vec![0xAA]);
    // Pretend the external compressor produced a single byte.
    let range = rom.single_finish(&job, &[0x09]).unwrap();
    assert_eq!(range, (0xC00000, 0xC00003));
    assert_eq!(rom.bytes(), &vec![0xFF, 0xFF, 0x09]);
    assert_eq!(rom.saved_bytes(), 1);
}

#[test]
fn single_asset_growth_credits_nothing() {
    let rom_bytes = vec![0x04, 0x00, 0x01, 0xAA];
    let mut rom = Rom::new(rom_bytes);
    let job = rom.single_begin(0xC00000).unwrap();
    // Three payload bytes frame to five: larger than the four replaced.
    let range = rom.single_finish(&job, &[1, 2, 3]).unwrap();
    assert_eq!(range, (0xC00000, 0xC00005));
    assert_eq!(rom.bytes(), &vec![0xFF, 0xFF, 1, 2, 3]);
    assert_eq!(rom.saved_bytes(), 0);
}

#[test]
fn single_begin_oob_error() {
    let rom = Rom::new(vec![0u8; 16]);
    let err = rom.single_begin(0xC4C008).unwrap_err();
    assert_eq!(
        err,
        Error::ExtractPtrError(checked_get::Error::StartIndexError(0x04C008, 16))
    );
}

fn two_entry_table_image() -> Vec<u8> {
    vec![
        // Two 2-byte table entries: data pointers 4 and 8.
        0x04, 0x00, 0x08, 0x00,
        // Entry 0: LZSS block, length 4, one literal 0xAA.
        0x04, 0x00, 0x01, 0xAA,
        // Entry 1: an identical block.
        0x04, 0x00, 0x01, 0xAA,
    ]
}

fn table_descriptor() -> TableDescriptor {
    TableDescriptor { start: 0xC00000, ptr_size: 2, arr_len: 2, offset: 0xC00000 }
}

#[test]
fn table_dedup_one_physical_copy() {
    // Two entries whose data decodes identically: after recompression both
    // pointers are equal and the image holds one physical copy.
    let mut rom = Rom::new(two_entry_table_image());
    let mut job = rom.table_begin(table_descriptor()).unwrap();
    assert_eq!(job.init_dp, 4);
    let mut done = None;
    while done.is_none() {
        match rom.table_advance(&mut job).unwrap() {
            TableStep::Done(a, b) => done = Some((a, b)),
            TableStep::Skipped => {}
            TableStep::Compress(bytes) => {
                assert_eq!(bytes, vec![0xAA]);
                // Pretend the external compressor produced 0x55.
                rom.table_supply(&mut job, &[0x55]).unwrap();
            }
        }
    }
    assert_eq!(done, Some((0xC00004, 0xC00007)));
    // Both pointers rewritten to the first entry's data pointer.
    assert_eq!(extract_ptr(rom.bytes(), 0, 2).unwrap(), 4);
    assert_eq!(extract_ptr(rom.bytes(), 2, 2).unwrap(), 4);
    // One physical copy of the framed bytes; the duplicate wrote nothing.
    assert_eq!(
        rom.bytes(),
        &vec![0x04, 0x00, 0x04, 0x00, 0xFF, 0xFF, 0x55, 0xAA, 0x04, 0x00, 0x01, 0xAA]
    );
    // Savings credited per decoded entry: (4 - 3) twice.
    assert_eq!(rom.saved_bytes(), 2);
}

#[test]
fn table_invalid_pointer_skipped() {
    // Entry 0 pointer 4, entry 1 pointer 2: below the initial pointer, so
    // entry 1 is foreign data and contributes zero bytes.
    let mut rom = Rom::new(vec![
        0x04, 0x00, 0x02, 0x00, //
        0x04, 0x00, 0x01, 0xAA,
    ]);
    let mut job = rom.table_begin(table_descriptor()).unwrap();
    let mut steps = Vec::new();
    loop {
        match rom.table_advance(&mut job).unwrap() {
            TableStep::Done(a, b) => {
                steps.push("done");
                assert_eq!((a, b), (0xC00004, 0xC00007));
                break;
            }
            TableStep::Skipped => steps.push("skip"),
            TableStep::Compress(_) => {
                steps.push("compress");
                rom.table_supply(&mut job, &[0x55]).unwrap();
            }
        }
    }
    assert_eq!(steps, vec!["compress", "skip", "done"]);
    // The skipped entry reuses the write pointer of the moment it was
    // processed and writes nothing.
    assert_eq!(extract_ptr(rom.bytes(), 2, 2).unwrap(), 7);
    assert_eq!(rom.saved_bytes(), 1);
}

#[test]
fn savings_accumulate_and_never_decrease() {
    let mut rom = Rom::new(vec![0x04, 0x00, 0x01, 0xAA]);
    assert_eq!(rom.saved_bytes(), 0);
    let job = rom.single_begin(0xC00000).unwrap();
    rom.single_finish(&job, &[0x09]).unwrap();
    let after_first = rom.saved_bytes();
    assert_eq!(after_first, 1);
    // Recompress the new image again: [0xFF, 0xFF, 0x09] is not a valid
    // LZSS block (length 0xFFFF exceeds the image), so the batch fails and
    // the counter is untouched.
    assert!(rom.single_begin(0xC00000).is_err());
    assert_eq!(rom.saved_bytes(), after_first);
}
