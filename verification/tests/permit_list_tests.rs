use simpleaf_quant::errors::QuantError;
use simpleaf_quant::permit_list::CBListInfo;
use simpleaf_quant::permit_list::classify_lines;
use simpleaf_quant::permit_list::derive_first_columns;
use simpleaf_quant::permit_list::reconcile_rows;
use simpleaf_quant::text::first_column;
use simpleaf_quant::text::split_lines_vec;
use simpleaf_quant::text::join_lines_vec;
use std::io::Write;

fn lines(ls: &[&str]) -> Vec<Vec<u8>> {
    ls.iter().map(|l| l.as_bytes().to_vec()).collect()
}

#[test]
fn split_lines_basic() {
    let text = b"alpha\r\nbeta\ngamma".to_vec();
    assert_eq!(split_lines_vec(&text), lines(&["alpha", "beta", "gamma"]));
}

#[test]
fn split_lines_trailing_newline_opens_no_line() {
    let text = b"a\nb\n".to_vec();
    assert_eq!(split_lines_vec(&text), lines(&["a", "b"]));
    assert_eq!(split_lines_vec(&Vec::new()), Vec::<Vec<u8>>::new());
}

#[test]
fn join_lines_closes_each_line() {
    let ls = lines(&["a", "bc"]);
    assert_eq!(join_lines_vec(&ls), b"a\nbc\n".to_vec());
}

#[test]
fn first_column_splits_on_tab() {
    assert_eq!(first_column(&b"AACCGG\tsample1\t10".to_vec()), b"AACCGG".to_vec());
    assert_eq!(first_column(&b"AACCGG".to_vec()), b"AACCGG".to_vec());
}

#[test]
fn classification_samples_leading_lines() {
    assert!(classify_lines(&lines(&["AAA", "CCC"])));
    assert!(!classify_lines(&lines(&["AAA\tx", "CCC\ty"])));
    assert!(classify_lines(&Vec::new()));
}

#[test]
fn classification_reads_only_the_sample() {
    // A tab first appearing after the sampled lines is not seen.
    let mut ls = lines(&["AAA"; 10]);
    ls.push(b"CCC\tlate".to_vec());
    assert!(classify_lines(&ls));
}

// Scenario: a permit list with tab-separated auxiliary columns is
// multi-column, and the derived file's first line is the first barcode.
#[test]
fn multi_column_permit_list_is_derived() {
    let mut info = CBListInfo::new();
    let raw = b"AACCGG\tsample1\t10\nTTGGCC\tsample2\t11\n".to_vec();
    let derived = info
        .init(&b"/data/pl.tsv".to_vec(), &b"/out".to_vec(), &raw)
        .unwrap()
        .expect("a multi-column list must be rewritten");
    assert!(!info.is_single_column);
    assert_eq!(info.init_file, b"/data/pl.tsv".to_vec());
    assert_eq!(info.final_file, b"/out/cb_list.txt".to_vec());
    assert_eq!(derived[0], b"AACCGG".to_vec());
    assert_eq!(derived[1], b"TTGGCC".to_vec());
}

// Single-column idempotence: a file with no tab-separated lines is its
// own canonical file, and preparing it again yields the same result.
#[test]
fn single_column_permit_list_is_kept() {
    let mut info = CBListInfo::new();
    let raw = b"AACCGG\nTTGGCC\n".to_vec();
    let first = info.init(&b"/data/pl.txt".to_vec(), &b"/out".to_vec(), &raw).unwrap();
    assert!(first.is_none());
    assert!(info.is_single_column);
    assert_eq!(info.final_file, b"/data/pl.txt".to_vec());

    let mut again = CBListInfo::new();
    let second = again.init(&b"/data/pl.txt".to_vec(), &b"/out".to_vec(), &raw).unwrap();
    assert!(second.is_none());
    assert_eq!(again.final_file, info.final_file);
}

// A derived file is single-column, so deriving twice changes nothing.
#[test]
fn derivation_is_idempotent() {
    let ls = lines(&["AACCGG\tsample1", "TTGGCC\tsample2"]);
    let once = derive_first_columns(&ls);
    let twice = derive_first_columns(&once);
    assert_eq!(once, twice);
    assert!(classify_lines(&once));
}

// The decompression is real: a gzip permit list classifies by its
// decompressed content, not by its raw bytes (which hold no tabs).
#[test]
fn compressed_permit_list_is_decompressed() {
    let mut gz: Vec<u8> = Vec::new();
    {
        let mut w = niffler::get_writer(
            Box::new(&mut gz),
            niffler::compression::Format::Gzip,
            niffler::Level::One,
        )
        .unwrap();
        w.write_all(b"AACCGG\tsample1\t10\nTTGGCC\tsample2\t11\n").unwrap();
    }
    let mut info = CBListInfo::new();
    let derived = info
        .init(&b"/data/pl.tsv.gz".to_vec(), &b"/out".to_vec(), &gz)
        .unwrap()
        .expect("the decompressed list is multi-column");
    assert!(!info.is_single_column);
    assert_eq!(derived[0], b"AACCGG".to_vec());
}

#[test]
fn unreadable_permit_list_is_an_input_error() {
    // Too short for format sniffing.
    let mut info = CBListInfo::new();
    let r = info.init(&b"/p".to_vec(), &b"/o".to_vec(), &b"AA".to_vec());
    assert!(matches!(r, Err(QuantError::InputValidationError(_))));
}

// Reconciliation correctness: each quantified barcode's row receives the
// whitelist's full original line for that barcode.
#[test]
fn reconciliation_restores_auxiliary_columns() {
    // Quantifier rows in an order unlike the whitelist's.
    let rows = lines(&["TTGGCC", "AACCGG"]);
    let wl = lines(&["AACCGG\tsample1\t10", "TTGGCC\tsample2\t11"]);
    let out = reconcile_rows(&rows, &wl).unwrap();
    assert_eq!(out.len(), 2);
    assert_eq!(out[0], b"TTGGCC\tsample2\t11".to_vec());
    assert_eq!(out[1], b"AACCGG\tsample1\t10".to_vec());
}

// Reconciliation fails exactly when some row's barcode never appears in
// the whitelist.
#[test]
fn reconciliation_missing_barcode_is_a_data_integrity_error() {
    let rows = lines(&["TTGGCC", "GGAATT"]);
    let wl = lines(&["AACCGG\tsample1\t10", "TTGGCC\tsample2\t11"]);
    let r = reconcile_rows(&rows, &wl);
    assert!(matches!(r, Err(QuantError::DataIntegrityError(_))));
}

#[test]
fn reconciliation_duplicate_rows_cannot_be_satisfied() {
    let rows = lines(&["AACCGG", "AACCGG"]);
    let wl = lines(&["AACCGG\tsample1\t10"]);
    let r = reconcile_rows(&rows, &wl);
    assert!(matches!(r, Err(QuantError::DataIntegrityError(_))));
}

#[test]
fn reconciliation_then_serialization_round_trip() {
    let rows_text = b"TTGGCC\nAACCGG\n".to_vec();
    let wl_text = b"AACCGG\tsample1\t10\nTTGGCC\tsample2\t11\n".to_vec();
    let mut info = CBListInfo::new();
    info.init(&b"/data/pl.tsv".to_vec(), &b"/out".to_vec(), &wl_text).unwrap();
    assert!(info.needs_reconciliation());
    let content = info
        .update_af_quant_barcodes_tsv(Some(&rows_text), Some(&wl_text))
        .unwrap()
        .expect("a multi-column list is reconciled");
    assert_eq!(content, b"TTGGCC\tsample2\t11\nAACCGG\tsample1\t10\n".to_vec());
}

#[test]
fn reconciliation_is_a_no_op_for_single_column_lists() {
    let mut info = CBListInfo::new();
    info.init(&b"/data/pl.txt".to_vec(), &b"/out".to_vec(), &b"AACCGG\n".to_vec()).unwrap();
    let r = info.update_af_quant_barcodes_tsv(None, None).unwrap();
    assert!(r.is_none());
}

#[test]
fn reconciliation_missing_row_file_is_an_input_error() {
    let wl_text = b"AACCGG\tsample1\t10\n".to_vec();
    let mut info = CBListInfo::new();
    info.init(&b"/data/pl.tsv".to_vec(), &b"/out".to_vec(), &wl_text).unwrap();
    let r = info.update_af_quant_barcodes_tsv(None, Some(&wl_text));
    assert!(matches!(r, Err(QuantError::InputValidationError(_))));
}
