use ocr_service::split::{
    admit_split, chunk_filename, download_path, is_pdf_name, no_file_reply, page_count,
    page_range_label, pages_per_chunk, parse_page_count, plan_chunks, plan_split, split_report,
    Analysis, ChunkInfo, PageRange, SplitReply, SplitResponse, TARGET_CHUNK_KB,
};

fn refusal(status: u16, filename: &str, error: &str) -> SplitReply {
    SplitReply {
        status,
        body: SplitResponse {
            success: false,
            original_filename: filename.to_string(),
            total_pages: 0,
            chunks: Vec::new(),
            error: Some(error.to_string()),
        },
    }
}

fn assert_partition(plan: &[PageRange], total_pages: usize, per_chunk: usize) {
    if total_pages == 0 {
        assert!(plan.is_empty());
        return;
    }
    assert_eq!(plan.first().unwrap().first, 1);
    assert_eq!(plan.last().unwrap().last, total_pages);
    let mut pages = 0;
    for (i, range) in plan.iter().enumerate() {
        assert!(range.first <= range.last);
        assert!(range.last - range.first + 1 <= per_chunk);
        if i + 1 < plan.len() {
            assert_eq!(range.last - range.first + 1, per_chunk);
            assert_eq!(range.last + 1, plan[i + 1].first);
        }
        pages += range.last - range.first + 1;
    }
    assert_eq!(pages, total_pages);
}

#[test]
fn target_size_is_500_kb() {
    assert_eq!(TARGET_CHUNK_KB, 500);
}

#[test]
fn split_of_1203_pages_at_about_10_kb_a_page() {
    // 12271 KB over 1203 pages is 10.2 KB a page.
    let per_chunk = pages_per_chunk(12271, 1203);
    assert_eq!(per_chunk, 49);
    let plan = plan_split(12271, 1203);
    assert_eq!(plan.len(), 25);
    assert_eq!(plan[0], PageRange { first: 1, last: 49 });
    assert_eq!(plan[23], PageRange { first: 1128, last: 1176 });
    assert_eq!(plan[24], PageRange { first: 1177, last: 1203 });
    assert_eq!(plan[24].last - plan[24].first + 1, 27);
    assert_partition(&plan, 1203, 49);
}

#[test]
fn chunk_size_is_the_rounded_down_quotient() {
    assert_eq!(pages_per_chunk(12288, 1203), 48);
    assert_eq!(pages_per_chunk(12030, 1203), 50);
    assert_eq!(pages_per_chunk(12031, 1203), 49);
    assert_eq!(pages_per_chunk(30, 9), 9);
    assert_eq!(pages_per_chunk(3000, 9), 1);
    assert_eq!(pages_per_chunk(3000, 10), 1);
    assert_eq!(pages_per_chunk(2500, 10), 2);
    assert_eq!(pages_per_chunk(2501, 10), 1);
    assert_eq!(pages_per_chunk(1000, 600), 300);
}

#[test]
fn small_pages_are_estimated_at_one_kb() {
    assert_eq!(pages_per_chunk(0, 1000), 500);
    assert_eq!(pages_per_chunk(10, 1000), 500);
    assert_eq!(pages_per_chunk(1000, 1000), 500);
    assert_eq!(pages_per_chunk(0, 3), 3);
}

#[test]
fn chunk_size_stays_between_one_and_the_page_count() {
    assert_eq!(pages_per_chunk(u64::MAX, 1), 1);
    assert_eq!(pages_per_chunk(1, 1), 1);
    assert_eq!(pages_per_chunk(u64::MAX, usize::MAX), 500);
    assert_eq!(pages_per_chunk(0, usize::MAX), 500);
    assert_eq!(pages_per_chunk(500, 0), 0);
    let sizes = [0u64, 1, 7, 499, 500, 501, 4096, 1 << 20, u64::MAX];
    let totals = [1usize, 2, 3, 49, 500, 501, 1203, 100_000];
    for size in sizes {
        for total in totals {
            let per_chunk = pages_per_chunk(size, total);
            assert!(1 <= per_chunk && per_chunk <= total);
        }
    }
}

#[test]
fn one_page_huge_file_is_one_chunk() {
    assert_eq!(plan_split(u64::MAX, 1), vec![PageRange { first: 1, last: 1 }]);
    assert_eq!(plan_split(50_000_000, 1), vec![PageRange { first: 1, last: 1 }]);
}

#[test]
fn chunks_are_a_partition_of_the_pages() {
    for total in 0..60usize {
        for per_chunk in 1..12usize {
            let plan = plan_chunks(total, per_chunk);
            assert_eq!(plan.len(), (total + per_chunk - 1) / per_chunk);
            assert_partition(&plan, total, per_chunk);
        }
    }
    assert_eq!(
        plan_chunks(7, 3),
        vec![
            PageRange { first: 1, last: 3 },
            PageRange { first: 4, last: 6 },
            PageRange { first: 7, last: 7 },
        ]
    );
    assert_eq!(plan_chunks(6, 3).len(), 2);
    assert_eq!(plan_chunks(5, 9), vec![PageRange { first: 1, last: 5 }]);
}

#[test]
fn plan_reaches_the_largest_page_number() {
    let plan = plan_chunks(usize::MAX, usize::MAX);
    assert_eq!(plan, vec![PageRange { first: 1, last: usize::MAX }]);
    let plan = plan_chunks(usize::MAX, usize::MAX - 1);
    assert_eq!(
        plan,
        vec![
            PageRange { first: 1, last: usize::MAX - 1 },
            PageRange { first: usize::MAX, last: usize::MAX },
        ]
    );
}

#[test]
fn document_without_pages_has_no_chunks() {
    assert!(plan_split(100, 0).is_empty());
    assert!(plan_chunks(0, 5).is_empty());
}

#[test]
fn page_count_is_read_from_the_dump() {
    let dump = "InfoBegin\nInfoKey: Creator\nInfoValue: scan\nNumberOfPages: 1203\nPageMediaBegin\n";
    assert_eq!(parse_page_count(dump), Some(1203));
    assert_eq!(parse_page_count("NumberOfPages: 7"), Some(7));
    assert_eq!(parse_page_count("NumberOfPages:7\n"), Some(7));
    assert_eq!(parse_page_count("NumberOfPages: 12\r\nNext: 1\r\n"), Some(12));
    assert_eq!(parse_page_count("NumberOfPages:\t +3 \n"), Some(3));
    assert_eq!(parse_page_count("NumberOfPages: 3: 4"), Some(3));
    assert_eq!(parse_page_count("NumberOfPages: 0"), Some(0));
    assert_eq!(parse_page_count("\n\nNumberOfPages: 5"), Some(5));
}

#[test]
fn first_line_with_the_key_decides() {
    assert_eq!(parse_page_count("NumberOfPages: x\nNumberOfPages: 5\n"), None);
    assert_eq!(parse_page_count("NumberOfPages: 4\nNumberOfPages: 5\n"), Some(4));
    assert_eq!(parse_page_count(" NumberOfPages: 4\nNumberOfPages: 5\n"), Some(5));
}

#[test]
fn dump_without_a_page_count_gives_none() {
    assert_eq!(parse_page_count(""), None);
    assert_eq!(parse_page_count("InfoBegin\nInfoKey: Creator\n"), None);
    assert_eq!(parse_page_count("NumberOfPages 5"), None);
    assert_eq!(parse_page_count("numberofpages: 5"), None);
    assert_eq!(parse_page_count("NumberOfPages:"), None);
    assert_eq!(parse_page_count("NumberOfPages: \n5"), None);
    assert_eq!(parse_page_count("NumberOfPages: five"), None);
    assert_eq!(parse_page_count("NumberOfPages: -5"), None);
    assert_eq!(parse_page_count("NumberOfPages: 5 pages"), None);
    assert_eq!(parse_page_count("NumberOfPages: :5"), None);
    assert_eq!(parse_page_count("NumberOfPages: 99999999999999999999999999"), None);
}

#[test]
fn page_count_or_the_reason() {
    assert_eq!(
        page_count("a.pdf", Analysis::NotRun),
        Err(refusal(500, "a.pdf", "pdftk not found. Please install: sudo apt install pdftk"))
    );
    assert_eq!(
        page_count("a.pdf", Analysis::Failed),
        Err(refusal(
            500,
            "a.pdf",
            "Failed to analyze PDF with pdftk. Make sure pdftk is installed."
        ))
    );
    assert_eq!(
        page_count("a.pdf", Analysis::Dump("nothing here".to_string())),
        Err(refusal(500, "a.pdf", "Could not determine PDF page count"))
    );
    assert_eq!(
        page_count("a.pdf", Analysis::Dump("NumberOfPages: 0\n".to_string())),
        Err(refusal(500, "a.pdf", "Could not determine PDF page count"))
    );
    assert_eq!(page_count("a.pdf", Analysis::Dump("NumberOfPages: 12\n".to_string())), Ok(12));
}

#[test]
fn request_without_a_file_is_refused() {
    assert_eq!(no_file_reply(), refusal(400, "", "No file uploaded"));
}

#[test]
fn only_pdf_names_are_admitted() {
    assert!(is_pdf_name("a.pdf"));
    assert!(is_pdf_name("A.PDF"));
    assert!(!is_pdf_name("a.png"));
    assert!(!is_pdf_name("unnamed"));
    assert_eq!(
        admit_split("notes.txt"),
        Err(refusal(400, "notes.txt", "Only PDF files are supported for splitting"))
    );
    let first = admit_split("Scan.Pdf").unwrap();
    let second = admit_split("Scan.Pdf").unwrap();
    assert_eq!(first.len(), 36);
    assert_eq!(first.matches('-').count(), 4);
    assert!(first.chars().all(|c| c == '-' || c.is_ascii_digit() || ('a'..='f').contains(&c)));
    assert_ne!(first, second);
}

#[test]
fn chunk_names_sort_in_page_order() {
    assert_eq!(page_range_label(PageRange { first: 1177, last: 1203 }), "1177-1203");
    assert_eq!(
        chunk_filename(1, PageRange { first: 1, last: 49 }),
        "chunk_001_pages_1-49.pdf"
    );
    assert_eq!(
        chunk_filename(25, PageRange { first: 1177, last: 1203 }),
        "chunk_025_pages_1177-1203.pdf"
    );
    assert_eq!(
        chunk_filename(1000, PageRange { first: 5, last: 5 }),
        "chunk_1000_pages_5-5.pdf"
    );
    let plan = plan_split(12271, 1203);
    let mut names: Vec<String> = Vec::new();
    for (i, range) in plan.iter().enumerate() {
        names.push(chunk_filename(i as u128 + 1, *range));
    }
    let mut sorted = names.clone();
    sorted.sort();
    assert_eq!(sorted, names);
}

#[test]
fn download_paths_name_the_upload_and_the_chunk() {
    assert_eq!(
        download_path("1b4e28ba", "chunk_001_pages_1-49.pdf"),
        "/downloads/1b4e28ba/chunk_001_pages_1-49.pdf"
    );
}

#[test]
fn report_lists_the_chunks_that_were_written() {
    let plan = plan_chunks(7, 3);
    let sizes = vec![Some(4096), None, Some(512)];
    let reply = split_report("book.pdf", 7, "id", &plan, &sizes);
    assert_eq!(
        reply,
        SplitReply {
            status: 200,
            body: SplitResponse {
                success: true,
                original_filename: "book.pdf".to_string(),
                total_pages: 7,
                chunks: vec![
                    ChunkInfo {
                        filename: "chunk_001_pages_1-3.pdf".to_string(),
                        page_range: "1-3".to_string(),
                        file_size: 4096,
                        download_path: "/downloads/id/chunk_001_pages_1-3.pdf".to_string(),
                    },
                    ChunkInfo {
                        filename: "chunk_003_pages_7-7.pdf".to_string(),
                        page_range: "7-7".to_string(),
                        file_size: 512,
                        download_path: "/downloads/id/chunk_003_pages_7-7.pdf".to_string(),
                    },
                ],
                error: None,
            },
        }
    );
}

#[test]
fn reported_pages_are_the_total_less_the_failed_chunks() {
    let plan = plan_chunks(100, 8);
    let mut sizes: Vec<Option<u64>> = Vec::new();
    let mut failed_pages = 0;
    for (i, range) in plan.iter().enumerate() {
        if i % 3 == 1 {
            sizes.push(None);
            failed_pages += range.last - range.first + 1;
        } else {
            sizes.push(Some(i as u64));
        }
    }
    let reply = split_report("book.pdf", 100, "id", &plan, &sizes);
    let mut reported = 0;
    for chunk in &reply.body.chunks {
        let (first, last) = chunk.page_range.split_once('-').unwrap();
        reported += last.parse::<usize>().unwrap() - first.parse::<usize>().unwrap() + 1;
    }
    assert_eq!(reported, 100 - failed_pages);
}

#[test]
fn chunks_without_a_size_count_as_not_written() {
    let plan = plan_chunks(7, 3);
    let reply = split_report("book.pdf", 7, "id", &plan, &vec![Some(1)]);
    assert_eq!(reply.body.chunks.len(), 1);
    assert_eq!(reply.body.chunks[0].page_range, "1-3");
    let reply = split_report("book.pdf", 7, "id", &plan, &Vec::new());
    assert!(reply.body.success);
    assert!(reply.body.chunks.is_empty());
    let reply = split_report("book.pdf", 7, "id", &plan, &vec![None, None, None, Some(9)]);
    assert!(reply.body.chunks.is_empty());
}
