use simpleaf_quant::geometry::parse_geometry;
use simpleaf_quant::geometry::transform_record;
use simpleaf_quant::geometry::GeomSegment;
use simpleaf_quant::geometry::SegKind;

fn v(s: &str) -> Vec<u8> {
    s.as_bytes().to_vec()
}

#[test]
fn descriptor_parses_into_segments() {
    let g = parse_geometry(&v("1{b[16]u[12]x:}2{r:}")).unwrap();
    assert_eq!(g.read1.len(), 3);
    assert!(matches!(g.read1[0], GeomSegment::Fixed(SegKind::Barcode, 16)));
    assert!(matches!(g.read1[1], GeomSegment::Fixed(SegKind::Umi, 12)));
    assert!(matches!(g.read1[2], GeomSegment::Tail(SegKind::Discard)));
    assert_eq!(g.read2.len(), 1);
    assert!(matches!(g.read2[0], GeomSegment::Tail(SegKind::ReadSeq)));
}

#[test]
fn descriptor_anchors_hold_their_bases() {
    let g = parse_geometry(&v("1{b[2]f[AC]u[2]x:}2{r:}")).unwrap();
    match &g.read1[1] {
        GeomSegment::Anchor(a) => assert_eq!(a, &v("AC")),
        _ => panic!("the second segment is the anchor"),
    }
}

#[test]
fn malformed_descriptors_are_rejected() {
    assert!(parse_geometry(&v("")).is_none());
    assert!(parse_geometry(&v("1{b[16]u[12]x:}")).is_none());
    assert!(parse_geometry(&v("1{b[16)u[12]x:}2{r:}")).is_none());
    assert!(parse_geometry(&v("1{b[0]x:}2{r:}")).is_none());
    assert!(parse_geometry(&v("1{q[16]x:}2{r:}")).is_none());
    assert!(parse_geometry(&v("1{b[16]x:y}2{r:}")).is_none());
    assert!(parse_geometry(&v("1{f[ACQT]x:}2{r:}")).is_none());
}

#[test]
fn rewrite_extracts_barcode_and_umi() {
    let g = parse_geometry(&v("1{b[4]u[3]x:}2{r:}")).unwrap();
    let (first, second) =
        transform_record(&g, &v("ACGTTTGCCCCC"), &v("GGGAAA")).expect("the pair fits the layout");
    assert_eq!(first, v("ACGTTTG"));
    assert_eq!(second, v("GGGAAA"));
}

#[test]
fn rewrite_checks_anchors() {
    let g = parse_geometry(&v("1{b[2]f[AC]u[2]x:}2{r:}")).unwrap();
    let ok = transform_record(&g, &v("GGACTTZZ"), &v("CCCC")).unwrap();
    assert_eq!(ok.0, v("GGTT"));
    assert_eq!(ok.1, v("CCCC"));
    // The anchor does not match: the record fails to parse.
    assert!(transform_record(&g, &v("GGAGTTZZ"), &v("CCCC")).is_none());
}

#[test]
fn rewrite_rejects_short_reads() {
    let g = parse_geometry(&v("1{b[4]u[3]x:}2{r:}")).unwrap();
    assert!(transform_record(&g, &v("ACGTT"), &v("GGGAAA")).is_none());
}

#[test]
fn rewrite_collects_parts_across_both_reads() {
    let g = parse_geometry(&v("1{b[2]r[1]x:}2{b[1]u[2]r:}")).unwrap();
    let (first, second) = transform_record(&g, &v("AAC"), &v("GTTCCC")).unwrap();
    // Barcodes of both reads, then UMIs of both reads.
    assert_eq!(first, v("AAGTT"));
    // Sequence parts of both reads, in read order.
    assert_eq!(second, v("CCCC"));
}
