use vstd::prelude::*;
use crate::compress::CompressErrType;
use crate::ingest::PayloadFileFailType;

verus! {

/// The stage at which a file of a batch failed.
#[derive(Debug, Clone, Copy, PartialEq, Eq, Structural)]
pub enum FailureStage {
    Ingestion,
    Compression,
}

impl FailureStage {
    /// The numeric code that responses carry for this stage.
    pub fn code(&self) -> (r: u32)
        ensures
            r == match *self {
                FailureStage::Ingestion => 0u32,
                FailureStage::Compression => 1u32,
            },
    {
        match *self {
            FailureStage::Ingestion => 0,
            FailureStage::Compression => 1,
        }
    }
}

/// One failed file of a batch: its name, the stage, and the stage's error code.
pub struct FailureRecord {
    pub filename: String,
    pub stage: FailureStage,
    pub code: u32,
}

/// The sizes of one compressed file and of the upload it came from.
pub struct SizeReport {
    pub filename: String,
    pub raw_size: u64,
    pub compressed_size: u64,
}

/// What one compress request reports: the files compressed, with the sizes that
/// could be read, and every failure of either stage.
pub struct BatchReport {
    pub success: usize,
    pub success_detail: Vec<SizeReport>,
    pub fail: usize,
    pub fail_detail: Vec<FailureRecord>,
}

/// The error code of a batch in which no file was compressed.
pub const NOTHING_COMPRESSED: u32 = 10;

/// The size reports of the measured files, in order: a file whose raw or
/// compressed size could not be read is left out.
pub open spec fn sizes_of(measured: Seq<(Seq<char>, Option<u64>, Option<u64>)>) -> Seq<(Seq<char>, u64, u64)>
    decreases measured.len(),
{
    if measured.len() == 0 {
        Seq::empty()
    } else {
        let rest = sizes_of(measured.drop_last());
        let m = measured.last();
        match (m.1, m.2) {
            (Some(raw), Some(compressed)) => rest.push((m.0, raw, compressed)),
            _ => rest,
        }
    }
}

/// The view of a list of measurements.
pub open spec fn measurements(v: Seq<(String, Option<u64>, Option<u64>)>) -> Seq<(Seq<char>, Option<u64>, Option<u64>)> {
    v.map_values(|m: (String, Option<u64>, Option<u64>)| (m.0@, m.1, m.2))
}

/// The view of a list of size reports.
pub open spec fn size_views(v: Seq<SizeReport>) -> Seq<(Seq<char>, u64, u64)> {
    v.map_values(|r: SizeReport| (r.filename@, r.raw_size, r.compressed_size))
}

/// The view of a list of failure records.
pub open spec fn failure_views(v: Seq<FailureRecord>) -> Seq<(Seq<char>, FailureStage, u32)> {
    v.map_values(|r: FailureRecord| (r.filename@, r.stage, r.code))
}

/// The failures of a batch: those of ingestion first, then those of compression,
/// each in its order.
pub open spec fn failures_of(
    upload: Seq<(Seq<char>, PayloadFileFailType)>,
    compression: Seq<(Seq<char>, CompressErrType)>,
) -> Seq<(Seq<char>, FailureStage, u32)> {
    upload.map_values(|f: (Seq<char>, PayloadFileFailType)| (f.0, FailureStage::Ingestion, upload_code(f.1)))
        + compression.map_values(|f: (Seq<char>, CompressErrType)| (f.0, FailureStage::Compression, compress_code(f.1)))
}

/// The code of an ingestion failure.
pub open spec fn upload_code(e: PayloadFileFailType) -> u32 {
    match e {
        PayloadFileFailType::TypeMismatch => 0u32,
        PayloadFileFailType::FileErr => 1u32,
    }
}

/// The code of a compression failure.
pub open spec fn compress_code(e: CompressErrType) -> u32 {
    match e {
        CompressErrType::CompressFail => 0u32,
        CompressErrType::FileSystemFail => 1u32,
    }
}

/// The size reports of `measured`, leaving out each file whose raw or compressed
/// size could not be read.
pub fn size_reports(measured: &Vec<(String, Option<u64>, Option<u64>)>) -> (r: Vec<SizeReport>)
    ensures
        size_views(r@) == sizes_of(measurements(measured@)),
{
    let mut r: Vec<SizeReport> = Vec::new();
    let mut i: usize = 0;
    while i < measured.len()
        invariant
            0 <= i <= measured@.len(),
            size_views(r@) == sizes_of(measurements(measured@.subrange(0, i as int))),
        decreases measured@.len() - i,
    {
        let ghost before = r@;
        proof {
            let next = measurements(measured@.subrange(0, i as int + 1));
            assert(next.drop_last() =~= measurements(measured@.subrange(0, i as int)));
            assert(next.last() == (measured@[i as int].0@, measured@[i as int].1, measured@[i as int].2));
        }
        match (measured[i].1, measured[i].2) {
            (Some(raw), Some(compressed)) => {
                r.push(SizeReport { filename: measured[i].0.clone(), raw_size: raw, compressed_size: compressed });
                proof {
                    assert(size_views(r@) =~= size_views(before).push((measured@[i as int].0@, raw, compressed)));
                }
            },
            _ => {},
        }
        i = i + 1;
    }
    proof {
        assert(measured@.subrange(0, measured@.len() as int) =~= measured@);
    }
    r
}

/// The failure records of a batch: the ingestion failures, then the compression
/// failures, each with its stage and code.
pub fn failure_records(
    upload: &Vec<(String, PayloadFileFailType)>,
    compression: &Vec<(String, CompressErrType)>,
) -> (r: Vec<FailureRecord>)
    ensures
        failure_views(r@) == failures_of(
            crate::ingest::failures(upload@),
            compression@.map_values(|f: (String, CompressErrType)| (f.0@, f.1)),
        ),
{
    let ghost up = crate::ingest::failures(upload@);
    let ghost co = compression@.map_values(|f: (String, CompressErrType)| (f.0@, f.1));
    let ghost want = failures_of(up, co);
    let mut r: Vec<FailureRecord> = Vec::new();
    let mut i: usize = 0;
    while i < upload.len()
        invariant
            0 <= i <= upload@.len(),
            want == failures_of(up, co),
            up == crate::ingest::failures(upload@),
            co == compression@.map_values(|f: (String, CompressErrType)| (f.0@, f.1)),
            want.len() == upload@.len() + compression@.len(),
            failure_views(r@) == want.subrange(0, i as int),
        decreases upload@.len() - i,
    {
        let ghost before = r@;
        r.push(FailureRecord { filename: upload[i].0.clone(), stage: FailureStage::Ingestion, code: upload[i].1.code() });
        proof {
            assert(up[i as int] == (upload@[i as int].0@, upload@[i as int].1));
            assert(want[i as int] == (upload@[i as int].0@, FailureStage::Ingestion, upload_code(upload@[i as int].1)));
            assert(failure_views(r@) =~= failure_views(before).push(want[i as int]));
            assert(failure_views(r@) =~= want.subrange(0, i as int + 1));
        }
        i = i + 1;
    }
    let mut j: usize = 0;
    while j < compression.len()
        invariant
            0 <= j <= compression@.len(),
            want == failures_of(up, co),
            up == crate::ingest::failures(upload@),
            co == compression@.map_values(|f: (String, CompressErrType)| (f.0@, f.1)),
            want.len() == upload@.len() + compression@.len(),
            failure_views(r@) == want.subrange(0, upload@.len() + j),
        decreases compression@.len() - j,
    {
        let ghost before = r@;
        r.push(FailureRecord { filename: compression[j].0.clone(), stage: FailureStage::Compression, code: compression[j].1.code() });
        proof {
            assert(co[j as int] == (compression@[j as int].0@, compression@[j as int].1));
            assert(want[upload@.len() + j] == (compression@[j as int].0@, FailureStage::Compression, compress_code(compression@[j as int].1)));
            assert(failure_views(r@) =~= failure_views(before).push(want[upload@.len() + j]));
            assert(failure_views(r@) =~= want.subrange(0, upload@.len() + j + 1));
        }
        j = j + 1;
    }
    proof {
        assert(want.subrange(0, want.len() as int) =~= want);
    }
    r
}

/// The report of one compress request, from the compressed files with their
/// measured sizes and the failures of both stages. A batch in which no file was
/// compressed fails with `NOTHING_COMPRESSED`, whatever else happened; otherwise
/// the counts are of files compressed and of failures of either stage.
pub fn compress_gif(
    compressed: &Vec<(String, Option<u64>, Option<u64>)>,
    upload_fails: &Vec<(String, PayloadFileFailType)>,
    compress_fails: &Vec<(String, CompressErrType)>,
) -> (r: Result<BatchReport, u32>)
    ensures
        r is Err <==> compressed@.len() == 0,
        r matches Err(code) ==> code == NOTHING_COMPRESSED,
        r matches Ok(b) ==> {
            &&& b.success == compressed@.len()
            &&& size_views(b.success_detail@) == sizes_of(measurements(compressed@))
            &&& b.fail == upload_fails@.len() + compress_fails@.len()
            &&& failure_views(b.fail_detail@) == failures_of(
                crate::ingest::failures(upload_fails@),
                compress_fails@.map_values(|f: (String, CompressErrType)| (f.0@, f.1)),
            )
        },
{
    if compressed.len() == 0 {
        return Err(NOTHING_COMPRESSED);
    }
    let fail_detail = failure_records(upload_fails, compress_fails);
    let ghost v = failure_views(fail_detail@);
    assert(v.len() == fail_detail@.len());
    Ok(BatchReport {
        success: compressed.len(),
        success_detail: size_reports(compressed),
        fail: fail_detail.len(),
        fail_detail,
    })
}

} // verus!
