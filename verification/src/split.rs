//! Splitting a document into chunks of pages: reading the page count from
//! the analysis tool's dump, choosing the chunk size, laying out the page
//! ranges and reporting the chunks that were written.

use crate::text::{
    decimal, ends_with_ignoring_case, find, find_char, format_decimal, format_zero_padded,
    has_prefix_at, has_suffix_ignoring_case, lemma_lex_less_after_prefix, lemma_lex_less_at,
    lemma_three_digits, lex_less, parse_unsigned, to_chars, trim_bounds, trimmed, unsigned_value,
    zero_padded,
};
use crate::token::{is_token, random_token};
use vstd::prelude::*;

verus! {

/// The size that a chunk should have, in KB.
pub const TARGET_CHUNK_KB: u64 = 500;

/// The pages `first..=last` of a document, counted from 1.
#[derive(Clone, Copy, Debug, PartialEq, Eq, Structural)]
pub struct PageRange {
    pub first: usize,
    pub last: usize,
}

/// One chunk that was written.
#[derive(Debug, PartialEq, Eq)]
pub struct ChunkInfo {
    pub filename: String,
    /// The chunk's pages, as `first-last`.
    pub page_range: String,
    /// The chunk's size in bytes.
    pub file_size: u64,
    /// The path under which the chunk can be fetched.
    pub download_path: String,
}

/// A [`ChunkInfo`] as a mathematical value.
#[verifier::ext_equal]
pub struct ChunkInfoView {
    pub filename: Seq<char>,
    pub page_range: Seq<char>,
    pub file_size: u64,
    pub download_path: Seq<char>,
}

impl View for ChunkInfo {
    type V = ChunkInfoView;

    open spec fn view(&self) -> ChunkInfoView {
        ChunkInfoView {
            filename: self.filename@,
            page_range: self.page_range@,
            file_size: self.file_size,
            download_path: self.download_path@,
        }
    }
}

/// The chunks of a report as mathematical values, in their order.
pub open spec fn chunk_views(chunks: Seq<ChunkInfo>) -> Seq<ChunkInfoView> {
    chunks.map_values(|c: ChunkInfo| c@)
}

/// The body of the answer to a request to split a document.
#[derive(Debug, PartialEq, Eq)]
pub struct SplitResponse {
    pub success: bool,
    pub original_filename: String,
    pub total_pages: usize,
    pub chunks: Vec<ChunkInfo>,
    pub error: Option<String>,
}

/// A [`SplitResponse`] as a mathematical value.
#[verifier::ext_equal]
pub struct SplitResponseView {
    pub success: bool,
    pub original_filename: Seq<char>,
    pub total_pages: usize,
    pub chunks: Seq<ChunkInfoView>,
    pub error: Option<Seq<char>>,
}

impl View for SplitResponse {
    type V = SplitResponseView;

    open spec fn view(&self) -> SplitResponseView {
        SplitResponseView {
            success: self.success,
            original_filename: self.original_filename@,
            total_pages: self.total_pages,
            chunks: chunk_views(self.chunks@),
            error: match self.error {
                Some(e) => Some(e@),
                None => None,
            },
        }
    }
}

/// The answer to a request to split a document: the HTTP status and the
/// body.
#[derive(Debug, PartialEq, Eq)]
pub struct SplitReply {
    pub status: u16,
    pub body: SplitResponse,
}

/// How the analysis tool ended on the uploaded document.
#[derive(Debug, PartialEq, Eq)]
pub enum Analysis {
    /// The tool could not be started.
    NotRun,
    /// The tool exited with a failure.
    Failed,
    /// What the tool wrote to standard output.
    Dump(String),
}

/// The body of an answer that refuses the request.
pub open spec fn refusal(filename: Seq<char>, error: Seq<char>) -> SplitResponseView {
    SplitResponseView {
        success: false,
        original_filename: filename,
        total_pages: 0,
        chunks: Seq::empty(),
        error: Some(error),
    }
}

/// The key of the dump's line that holds the page count.
pub open spec fn page_count_key() -> Seq<char> {
    "NumberOfPages:"@
}

/// The number on a line that begins with the key: what stands between the
/// key's colon and the next colon, or the end of the line, is trimmed and
/// read as an unsigned decimal numeral.
pub open spec fn line_value(line: Seq<char>) -> Option<nat> {
    let rest = line.subrange(page_count_key().len() as int, line.len() as int);
    unsigned_value(trimmed(rest.subrange(0, find(rest, ':') as int)))
}

/// The page count that a dump states: the number on the first of its lines
/// that begins with the key. `None` when no line begins with the key or that
/// line holds no number.
pub open spec fn page_count_in(dump: Seq<char>) -> Option<nat>
    decreases dump.len(),
{
    let end = find(dump, '\n') as int;
    let line = dump.subrange(0, end);
    if page_count_key().is_prefix_of(line) {
        line_value(line)
    } else if end >= dump.len() {
        None
    } else {
        page_count_in(dump.subrange(end + 1, dump.len() as int))
    }
}

/// The number of pages that go into one chunk of a document of
/// `total_pages` pages and `file_size_kb` KB: as many as fit the target size
/// when a page is estimated at `max(file_size_kb / total_pages, 1)` KB,
/// rounded down, but at least 1 and at most `total_pages`.
pub open spec fn pages_per_chunk_of(file_size_kb: nat, total_pages: nat) -> nat {
    if total_pages == 0 {
        0
    } else {
        let divisor = if file_size_kb > total_pages {
            file_size_kb
        } else {
            total_pages
        };
        let fit = (TARGET_CHUNK_KB as nat * total_pages) / divisor;
        if fit < 1 {
            1
        } else if fit > total_pages {
            total_pages
        } else {
            fit
        }
    }
}

/// The number of chunks of `per_chunk` pages that cover `total_pages` pages.
pub open spec fn chunk_count(total_pages: nat, per_chunk: nat) -> nat {
    if per_chunk == 0 {
        0
    } else {
        ((total_pages + per_chunk - 1) / per_chunk as int) as nat
    }
}

/// The pages of the chunk with index `i`, counted from 0: chunk `i` begins
/// after `i` full chunks and ends after `per_chunk` pages or with the
/// document.
pub open spec fn chunk_range(i: int, total_pages: nat, per_chunk: nat) -> PageRange {
    PageRange {
        first: (i * per_chunk + 1) as usize,
        last: (if (i + 1) * per_chunk < total_pages {
            (i + 1) * per_chunk
        } else {
            total_pages as int
        }) as usize,
    }
}

/// The page ranges of the chunks of a document, in page order.
pub open spec fn chunk_plan(total_pages: nat, per_chunk: nat) -> Seq<PageRange> {
    Seq::new(chunk_count(total_pages, per_chunk), |i: int| chunk_range(i, total_pages, per_chunk))
}

/// The number of pages in `range`.
pub open spec fn range_len(range: PageRange) -> nat {
    if range.first <= range.last {
        (range.last - range.first + 1) as nat
    } else {
        0
    }
}

/// A page range as text: `first-last`.
pub open spec fn range_label(range: PageRange) -> Seq<char> {
    decimal(range.first as nat) + "-"@ + decimal(range.last as nat)
}

/// The file name of the chunk with number `number`, counted from 1. The
/// number is padded to three digits.
pub open spec fn chunk_name(number: nat, range: PageRange) -> Seq<char> {
    "chunk_"@ + zero_padded(number, 3) + "_pages_"@ + range_label(range) + ".pdf"@
}

/// The path under which the chunk `name` of the upload `upload_id` can be
/// fetched.
pub open spec fn download_path_of(upload_id: Seq<char>, name: Seq<char>) -> Seq<char> {
    "/downloads/"@ + upload_id + "/"@ + name
}

/// The size of the chunk with index `i`, or `None` if it was not written.
/// A chunk that `sizes` does not reach counts as not written.
pub open spec fn size_at(sizes: Seq<Option<u64>>, i: int) -> Option<u64> {
    if 0 <= i < sizes.len() {
        sizes[i]
    } else {
        None
    }
}

/// The report's entry for the chunk with index `i` and size `size`.
pub open spec fn chunk_info(upload_id: Seq<char>, i: int, range: PageRange, size: u64)
    -> ChunkInfoView {
    let name = chunk_name((i + 1) as nat, range);
    ChunkInfoView {
        filename: name,
        page_range: range_label(range),
        file_size: size,
        download_path: download_path_of(upload_id, name),
    }
}

/// The report's chunks: one entry for each chunk of `plan` that was
/// written, in the plan's order. A chunk that was not written leaves no
/// entry, and the chunks after it keep their numbers.
pub open spec fn written_chunks(upload_id: Seq<char>, plan: Seq<PageRange>, sizes: Seq<Option<u64>>)
    -> Seq<ChunkInfoView>
    decreases plan.len(),
{
    if plan.len() == 0 {
        Seq::empty()
    } else {
        let before = written_chunks(upload_id, plan.drop_last(), sizes);
        match size_at(sizes, plan.len() - 1) {
            Some(size) => before.push(chunk_info(upload_id, plan.len() - 1, plan.last(), size)),
            None => before,
        }
    }
}

/// The pages of those chunks of `plan` that were written, if `written`, or
/// of those that were not, taken together.
pub open spec fn pages_of(plan: Seq<PageRange>, sizes: Seq<Option<u64>>, written: bool) -> nat
    decreases plan.len(),
{
    if plan.len() == 0 {
        0
    } else {
        let before = pages_of(plan.drop_last(), sizes, written);
        if (size_at(sizes, plan.len() - 1) is Some) == written {
            before + range_len(plan.last())
        } else {
            before
        }
    }
}

/// The body of the answer that reports a split.
pub open spec fn report(
    filename: Seq<char>,
    total_pages: usize,
    upload_id: Seq<char>,
    plan: Seq<PageRange>,
    sizes: Seq<Option<u64>>,
) -> SplitResponseView {
    SplitResponseView {
        success: true,
        original_filename: filename,
        total_pages: total_pages,
        chunks: written_chunks(upload_id, plan, sizes),
        error: None,
    }
}

/// Whether `filename` names a PDF document: it ends with `.pdf`, in any
/// case.
pub fn is_pdf_name(filename: &str) -> (b: bool)
    ensures
        b == ends_with_ignoring_case(filename@, ".pdf"@),
{
    let chars = to_chars(filename);
    has_suffix_ignoring_case(&chars, ".pdf")
}

fn refuse(status: u16, filename: &str, error: &str) -> (reply: SplitReply)
    ensures
        reply.status == status,
        reply.body@ == refusal(filename@, error@),
{
    let body = SplitResponse {
        success: false,
        original_filename: String::from_str(filename),
        total_pages: 0,
        chunks: Vec::new(),
        error: Some(String::from_str(error)),
    };
    assert(body@ =~= refusal(filename@, error@));
    SplitReply { status, body }
}

/// The answer to a request that holds no file.
pub fn no_file_reply() -> (reply: SplitReply)
    ensures
        reply.status == 400,
        reply.body@ == refusal(Seq::empty(), "No file uploaded"@),
{
    let reply = refuse(400, "", "No file uploaded");
    assert(""@ =~= Seq::<char>::empty()) by {
        reveal_strlit("");
    }
    reply
}

/// Admits an upload for splitting if its name is that of a PDF document,
/// and gives it a fresh identifier; refuses any other upload.
pub fn admit_split(filename: &str) -> (admitted: Result<String, SplitReply>)
    ensures
        admitted is Ok <==> ends_with_ignoring_case(filename@, ".pdf"@),
        admitted matches Ok(upload_id) ==> is_token(upload_id@),
        admitted matches Err(reply) ==> reply.status == 400 && reply.body@ == refusal(
            filename@,
            "Only PDF files are supported for splitting"@,
        ),
{
    if is_pdf_name(filename) {
        Ok(random_token())
    } else {
        Err(refuse(400, filename, "Only PDF files are supported for splitting"))
    }
}

/// The page count that `dump` states, if it states one that fits in
/// `usize`.
pub fn parse_page_count(dump: &str) -> (count: Option<usize>)
    ensures
        count == match page_count_in(dump@) {
            Some(n) => if n <= usize::MAX {
                Some(n as usize)
            } else {
                None
            },
            None => None,
        },
{
    let chars = to_chars(dump);
    let key = to_chars("NumberOfPages:");
    let n = chars.len();
    let mut from: usize = 0;
    assert(chars@.subrange(0, n as int) =~= dump@);
    while from < n
        invariant
            from <= n,
            n == chars.len(),
            chars@ == dump@,
            key@ == page_count_key(),
            page_count_in(dump@) == page_count_in(chars@.subrange(from as int, n as int)),
        decreases n - from,
    {
        let ghost rest = chars@.subrange(from as int, n as int);
        let end = find_char(&chars, from, n, '\n');
        let ghost line = rest.subrange(0, end - from);
        assert(line =~= chars@.subrange(from as int, end as int));
        if has_prefix_at(&chars, from, end, &key) {
            let start = from + key.len();
            let ghost field = line.subrange(key@.len() as int, line.len() as int);
            assert(field =~= chars@.subrange(start as int, end as int));
            let colon = find_char(&chars, start, end, ':');
            assert(field.subrange(0, colon - start) =~= chars@.subrange(
                start as int,
                colon as int,
            ));
            let (a, b) = trim_bounds(&chars, start, colon);
            return parse_unsigned(&chars, a, b);
        }
        if end >= n {
            return None;
        }
        assert(rest.subrange(end - from + 1, rest.len() as int) =~= chars@.subrange(
            end + 1,
            n as int,
        ));
        from = end + 1;
    }
    assert(chars@.subrange(from as int, n as int).len() == 0);
    None
}

/// The document's page count, from how the analysis tool ended, or the
/// answer that reports why there is none: the tool did not run, it failed,
/// or its dump states no page count or zero pages.
pub fn page_count(filename: &str, analysis: Analysis) -> (count: Result<usize, SplitReply>)
    ensures
        match analysis {
            Analysis::NotRun => count matches Err(reply) && reply.status == 500 && reply.body@
                == refusal(filename@, "pdftk not found. Please install: sudo apt install pdftk"@),
            Analysis::Failed => count matches Err(reply) && reply.status == 500 && reply.body@
                == refusal(
                filename@,
                "Failed to analyze PDF with pdftk. Make sure pdftk is installed."@,
            ),
            Analysis::Dump(dump) => match page_count_in(dump@) {
                Some(n) if 0 < n <= usize::MAX => count == Ok::<usize, SplitReply>(n as usize),
                _ => count matches Err(reply) && reply.status == 500 && reply.body@ == refusal(
                    filename@,
                    "Could not determine PDF page count"@,
                ),
            },
        },
{
    match analysis {
        Analysis::NotRun => Err(
            refuse(500, filename, "pdftk not found. Please install: sudo apt install pdftk"),
        ),
        Analysis::Failed => Err(
            refuse(
                500,
                filename,
                "Failed to analyze PDF with pdftk. Make sure pdftk is installed.",
            ),
        ),
        Analysis::Dump(dump) => {
            match parse_page_count(dump.as_str()) {
                Some(n) => {
                    if n > 0 {
                        Ok(n)
                    } else {
                        Err(refuse(500, filename, "Could not determine PDF page count"))
                    }
                },
                None => Err(refuse(500, filename, "Could not determine PDF page count")),
            }
        },
    }
}

/// The number of pages that go into one chunk. For a document with at
/// least one page it lies between 1 and `total_pages`.
pub fn pages_per_chunk(file_size_kb: u64, total_pages: usize) -> (per_chunk: usize)
    ensures
        per_chunk == pages_per_chunk_of(file_size_kb as nat, total_pages as nat),
        total_pages >= 1 ==> 1 <= per_chunk <= total_pages,
        total_pages == 0 ==> per_chunk == 0,
{
    if total_pages == 0 {
        return 0;
    }
    let total: u128 = total_pages as u128;
    let size: u128 = file_size_kb as u128;
    let divisor: u128 = if size > total {
        size
    } else {
        total
    };
    let fit: u128 = (TARGET_CHUNK_KB as u128 * total) / divisor;
    if fit < 1 {
        1
    } else if fit > total {
        total_pages
    } else {
        fit as usize
    }
}

proof fn lemma_last_chunk(k: int, total: int, per: int)
    requires
        per >= 1,
        k >= 0,
        k * per < total <= (k + 1) * per,
    ensures
        (total + per - 1) / per == k + 1,
{
    assert((total + per - 1) / per == k + 1) by (nonlinear_arith)
        requires
            per >= 1,
            k >= 0,
            k * per < total <= (k + 1) * per,
    ;
}

proof fn lemma_inner_chunk(i: int, total: int, per: int)
    requires
        per >= 1,
        total >= 0,
        0 <= i < (total + per - 1) / per,
    ensures
        i * per < total,
        0 <= i * per,
        (i + 1) * per == i * per + per,
        i + 1 < (total + per - 1) / per <==> (i + 1) * per < total,
{
    assert(i * per < total && 0 <= i * per && (i + 1) * per == i * per + per && (i + 1 < (total
        + per - 1) / per <==> (i + 1) * per < total)) by (nonlinear_arith)
        requires
            per >= 1,
            total >= 0,
            0 <= i < (total + per - 1) / per,
    ;
}

/// The page ranges of the chunks of a document of `total_pages` pages, with
/// `per_chunk` pages to a chunk, in page order.
pub fn plan_chunks(total_pages: usize, per_chunk: usize) -> (plan: Vec<PageRange>)
    requires
        per_chunk >= 1,
    ensures
        plan@ == chunk_plan(total_pages as nat, per_chunk as nat),
{
    let mut plan: Vec<PageRange> = Vec::new();
    let mut first: usize = 1;
    let mut done: bool = total_pages == 0;
    proof {
        let per = per_chunk as int;
        assert(0 * per == 0 && (0 + per - 1) / per == 0) by (nonlinear_arith)
            requires
                per >= 1,
        ;
    }
    while !done
        invariant
            per_chunk >= 1,
            !done ==> 1 <= first <= total_pages && first == plan.len() * per_chunk + 1,
            done ==> plan.len() == chunk_count(total_pages as nat, per_chunk as nat),
            forall|i: int|
                0 <= i < plan.len() ==> #[trigger] plan@[i] == chunk_range(
                    i,
                    total_pages as nat,
                    per_chunk as nat,
                ),
        decreases
                if done {
                    0
                } else {
                    total_pages - first + 1
                },
    {
        let ghost k = plan.len() as int;
        let last: usize = if per_chunk - 1 >= total_pages - first {
            total_pages
        } else {
            first + (per_chunk - 1)
        };
        proof {
            assert((k + 1) * per_chunk == k * per_chunk + per_chunk) by (nonlinear_arith);
            if last == total_pages {
                lemma_last_chunk(k, total_pages as int, per_chunk as int);
            }
        }
        plan.push(PageRange { first, last });
        if last == total_pages {
            done = true;
        } else {
            first = last + 1;
        }
    }
    assert(plan@ =~= chunk_plan(total_pages as nat, per_chunk as nat));
    plan
}

/// The page ranges of the chunks of a document of `total_pages` pages and
/// `file_size_kb` KB. A document without pages has no chunks.
pub fn plan_split(file_size_kb: u64, total_pages: usize) -> (plan: Vec<PageRange>)
    ensures
        plan@ == chunk_plan(
            total_pages as nat,
            pages_per_chunk_of(file_size_kb as nat, total_pages as nat),
        ),
{
    if total_pages == 0 {
        let plan: Vec<PageRange> = Vec::new();
        assert(plan@ =~= chunk_plan(0, 0));
        plan
    } else {
        plan_chunks(total_pages, pages_per_chunk(file_size_kb, total_pages))
    }
}

/// A page range as text: `first-last`.
pub fn page_range_label(range: PageRange) -> (label: String)
    ensures
        label@ == range_label(range),
{
    let mut label = format_decimal(range.first as u128);
    label.append("-");
    label.append(format_decimal(range.last as u128).as_str());
    label
}

/// The file name of the chunk with number `number`, counted from 1.
pub fn chunk_filename(number: u128, range: PageRange) -> (name: String)
    ensures
        name@ == chunk_name(number as nat, range),
{
    let mut name = String::from_str("chunk_");
    name.append(format_zero_padded(number, 3).as_str());
    name.append("_pages_");
    name.append(page_range_label(range).as_str());
    name.append(".pdf");
    name
}

/// The path under which the chunk `name` of the upload `upload_id` can be
/// fetched.
pub fn download_path(upload_id: &str, name: &str) -> (path: String)
    ensures
        path@ == download_path_of(upload_id@, name@),
{
    let mut path = String::from_str("/downloads/");
    path.append(upload_id);
    path.append("/");
    path.append(name);
    path
}

/// The answer that reports a split: the chunks of `plan` that were
/// written, each with its size from `sizes`. `sizes[i]` is the size in bytes
/// of the chunk `plan[i]`, or `None` if that chunk could not be written.
pub fn split_report(
    filename: &str,
    total_pages: usize,
    upload_id: &str,
    plan: &Vec<PageRange>,
    sizes: &Vec<Option<u64>>,
) -> (reply: SplitReply)
    ensures
        reply.status == 200,
        reply.body@ == report(filename@, total_pages, upload_id@, plan@, sizes@),
{
    let mut chunks: Vec<ChunkInfo> = Vec::new();
    let mut i: usize = 0;
    assert(plan@.take(0) =~= Seq::<PageRange>::empty());
    while i < plan.len()
        invariant
            i <= plan.len(),
            chunk_views(chunks@) == written_chunks(upload_id@, plan@.take(i as int), sizes@),
        decreases plan.len() - i,
    {
        let ghost before = chunk_views(chunks@);
        assert(plan@.take(i + 1).drop_last() =~= plan@.take(i as int));
        assert(plan@.take(i + 1).last() == plan@[i as int]);
        if i < sizes.len() {
            match sizes[i] {
                Some(size) => {
                    let name = chunk_filename(i as u128 + 1, plan[i]);
                    let info = ChunkInfo {
                        download_path: download_path(upload_id, name.as_str()),
                        filename: name,
                        page_range: page_range_label(plan[i]),
                        file_size: size,
                    };
                    assert(info@ =~= chunk_info(upload_id@, i as int, plan@[i as int], size));
                    chunks.push(info);
                    assert(chunk_views(chunks@) =~= before.push(info@));
                },
                None => {},
            }
        }
        i += 1;
    }
    assert(plan@.take(plan.len() as int) =~= plan@);
    let body = SplitResponse {
        success: true,
        original_filename: String::from_str(filename),
        total_pages,
        chunks,
        error: None,
    };
    assert(body@ =~= report(filename@, total_pages, upload_id@, plan@, sizes@));
    SplitReply { status: 200, body }
}

/// The chunks of a document are a partition of its pages: the first chunk
/// begins with page 1, each chunk begins where the one before it ended,
/// none is empty, none has more than `per_chunk` pages, and the last ends
/// with the last page.
pub proof fn law_chunks_partition(total_pages: nat, per_chunk: nat)
    requires
        per_chunk >= 1,
        total_pages <= usize::MAX,
    ensures
        ({
            let plan = chunk_plan(total_pages, per_chunk);
            &&& total_pages == 0 <==> plan.len() == 0
            &&& plan.len() > 0 ==> plan.first().first == 1 && plan.last().last == total_pages
            &&& forall|i: int|
                0 <= i < plan.len() ==> (#[trigger] plan[i]).first <= plan[i].last && range_len(
                    plan[i],
                ) <= per_chunk
            &&& forall|i: int|
                0 <= i < plan.len() - 1 ==> (#[trigger] plan[i]).last + 1 == plan[i + 1].first
        }),
{
    let plan = chunk_plan(total_pages, per_chunk);
    let count = chunk_count(total_pages, per_chunk) as int;
    let total = total_pages as int;
    let per = per_chunk as int;
    assert(total == 0 <==> count == 0) by (nonlinear_arith)
        requires
            per >= 1,
            total >= 0,
            count == (total + per - 1) / per,
    ;
    assert forall|i: int| 0 <= i < plan.len() implies (#[trigger] plan[i]).first <= plan[i].last
        && range_len(plan[i]) <= per_chunk && plan[i].first == i * per + 1 && (i + 1 < plan.len()
        ==> plan[i].last == (i + 1) * per) && (i + 1 == plan.len() ==> plan[i].last
        == total) by {
        lemma_inner_chunk(i, total, per);
    }
    if plan.len() > 0 {
        assert(plan.first() == plan[0]);
        assert(0 * per == 0) by (nonlinear_arith);
    }
    assert forall|i: int| 0 <= i < plan.len() - 1 implies (#[trigger] plan[i]).last + 1 == plan[i
        + 1].first by {
        assert(plan[i + 1].first == (i + 1) * per + 1);
    }
}

proof fn lemma_pages_split(plan: Seq<PageRange>, sizes: Seq<Option<u64>>)
    ensures
        pages_of(plan, sizes, true) + pages_of(plan, sizes, false) == pages_of(
            plan,
            Seq::empty(),
            false,
        ),
    decreases plan.len(),
{
    if plan.len() > 0 {
        lemma_pages_split(plan.drop_last(), sizes);
    }
}

proof fn lemma_pages_of_prefix(total_pages: nat, per_chunk: nat, k: int)
    requires
        per_chunk >= 1,
        total_pages <= usize::MAX,
        0 <= k <= chunk_count(total_pages, per_chunk),
    ensures
        pages_of(chunk_plan(total_pages, per_chunk).take(k), Seq::empty(), false) == if k
            == chunk_count(total_pages, per_chunk) {
            total_pages as int
        } else {
            k * per_chunk
        },
    decreases k,
{
    let plan = chunk_plan(total_pages, per_chunk);
    let total = total_pages as int;
    let per = per_chunk as int;
    if k == 0 {
        assert(0 * per == 0) by (nonlinear_arith);
        assert(total == 0 <==> plan.len() == 0) by (nonlinear_arith)
            requires
                per >= 1,
                total >= 0,
                plan.len() == (total + per - 1) / per,
        ;
    } else {
        lemma_pages_of_prefix(total_pages, per_chunk, k - 1);
        assert(plan.take(k).drop_last() =~= plan.take(k - 1));
        assert(plan.take(k).last() == plan[k - 1]);
        lemma_inner_chunk(k - 1, total, per);
    }
}

/// The pages of the chunks that a report lists and the pages of the chunks
/// that were not written add up to the document's pages, and the report
/// lists no more chunks than were planned.
pub proof fn law_reported_pages(
    upload_id: Seq<char>,
    total_pages: nat,
    per_chunk: nat,
    sizes: Seq<Option<u64>>,
)
    requires
        per_chunk >= 1,
        total_pages <= usize::MAX,
    ensures
        ({
            let plan = chunk_plan(total_pages, per_chunk);
            &&& pages_of(plan, sizes, true) == total_pages - pages_of(plan, sizes, false)
            &&& written_chunks(upload_id, plan, sizes).len() <= plan.len()
        }),
{
    let plan = chunk_plan(total_pages, per_chunk);
    lemma_pages_split(plan, sizes);
    lemma_pages_of_prefix(total_pages, per_chunk, plan.len() as int);
    assert(plan.take(plan.len() as int) =~= plan);
    lemma_written_len(upload_id, plan, sizes);
}

proof fn lemma_written_len(upload_id: Seq<char>, plan: Seq<PageRange>, sizes: Seq<Option<u64>>)
    ensures
        written_chunks(upload_id, plan, sizes).len() <= plan.len(),
    decreases plan.len(),
{
    if plan.len() > 0 {
        lemma_written_len(upload_id, plan.drop_last(), sizes);
    }
}

proof fn lemma_padded_order(a: nat, b: nat) -> (k: int)
    requires
        a < b <= 999,
    ensures
        zero_padded(a, 3).len() == 3,
        zero_padded(b, 3).len() == 3,
        0 <= k < 3,
        forall|j: int| 0 <= j < k ==> zero_padded(a, 3)[j] == zero_padded(b, 3)[j],
        zero_padded(a, 3)[k] < zero_padded(b, 3)[k],
{
    lemma_three_digits(a);
    lemma_three_digits(b);
    if a / 100 != b / 100 {
        0
    } else if (a / 10) % 10 != (b / 10) % 10 {
        1
    } else {
        2
    }
}

proof fn lemma_name_parts(number: nat, range: PageRange)
    ensures
        chunk_name(number, range) == "chunk_"@ + (zero_padded(number, 3) + ("_pages_"@
            + range_label(range) + ".pdf"@)),
{
    let head = "chunk_"@;
    let digits = zero_padded(number, 3);
    let middle = "_pages_"@;
    let label = range_label(range);
    let end = ".pdf"@;
    assert((head + digits) + middle =~= head + (digits + middle));
    assert((head + (digits + middle)) + label =~= head + ((digits + middle) + label));
    assert((head + ((digits + middle) + label)) + end =~= head + (((digits + middle) + label)
        + end));
    assert((digits + middle) + label =~= digits + (middle + label));
    assert((digits + (middle + label)) + end =~= digits + ((middle + label) + end));
}

/// The names of a document's chunks sort in page order: of two chunks, the
/// one with the smaller number has the name that comes first. This holds
/// while the numbers have no more than three digits.
pub proof fn law_chunk_names_sorted(a: nat, range_a: PageRange, b: nat, range_b: PageRange)
    requires
        a < b <= 999,
    ensures
        lex_less(chunk_name(a, range_a), chunk_name(b, range_b)),
{
    let tail_a = zero_padded(a, 3) + ("_pages_"@ + range_label(range_a) + ".pdf"@);
    let tail_b = zero_padded(b, 3) + ("_pages_"@ + range_label(range_b) + ".pdf"@);
    lemma_name_parts(a, range_a);
    lemma_name_parts(b, range_b);
    lemma_lex_less_after_prefix("chunk_"@, tail_a, tail_b);
    let k = lemma_padded_order(a, b);
    assert forall|j: int| 0 <= j <= k implies tail_a[j] == zero_padded(a, 3)[j] && tail_b[j]
        == zero_padded(b, 3)[j] by {}
    lemma_lex_less_at(tail_a, tail_b, k);
}

/// The chunk size is the greatest number of pages whose estimated size is
/// within the target, brought into the range from 1 to `total_pages`.
pub proof fn law_chunk_size(file_size_kb: nat, total_pages: nat)
    requires
        total_pages >= 1,
    ensures
        ({
            let per = pages_per_chunk_of(file_size_kb, total_pages);
            let page_kb = if file_size_kb > total_pages {
                file_size_kb
            } else {
                total_pages
            };
            &&& 1 <= per <= total_pages
            &&& per > 1 ==> per * page_kb <= TARGET_CHUNK_KB * total_pages
            &&& per < total_pages ==> (per + 1) * page_kb > TARGET_CHUNK_KB * total_pages
        }),
{
    let divisor: int = if file_size_kb > total_pages {
        file_size_kb as int
    } else {
        total_pages as int
    };
    let product: int = TARGET_CHUNK_KB as int * total_pages;
    let fit = product / divisor;
    assert(fit * divisor <= product < (fit + 1) * divisor) by (nonlinear_arith)
        requires
            divisor >= 1,
            product >= 0,
            fit == product / divisor,
    ;
    let per = pages_per_chunk_of(file_size_kb, total_pages) as int;
    if per > 1 && per < fit {
        assert(per * divisor <= fit * divisor) by (nonlinear_arith)
            requires
                per <= fit,
                divisor >= 1,
        ;
    }
    if per < total_pages && per > fit {
        assert((per + 1) * divisor >= (fit + 1) * divisor) by (nonlinear_arith)
            requires
                per >= fit,
                divisor >= 1,
        ;
    }
}

} // verus!
