//! The depot report: a fixed header followed by a table with one row per
//! file. Parsing keeps every file row and drops directory placeholders.

use vstd::prelude::*;
use crate::scan::{
    digits_end, literal_at, number_at, scan_digits, scan_literal, scan_number, scan_spaces, scan_word,
    skip_spaces, ends_at, token_ends, word_end,
};
use crate::text::{chars_of, lines_from, same_text, split_lines, string_of};

verus! {

broadcast use vstd::string::group_string_axioms;

/// How many lines the report header occupies, the column titles included.
pub const HEADER_LINES: usize = 10;

/// The `flags` value that marks a directory row.
pub const DIRECTORY_FLAGS: u16 = 40;

/// The header field that could not be read.
#[derive(Clone, Copy, Debug, PartialEq, Eq, Structural)]
pub enum HeaderField {
    DepotId,
    ManifestId,
    ManifestDate,
    NumFiles,
    NumChunks,
    BytesDisk,
    BytesCompressed,
}

/// The column of a table row that could not be read.
#[derive(Clone, Copy, Debug, PartialEq, Eq, Structural)]
pub enum EntryField {
    Size,
    Chunks,
    Hash,
    Flags,
    Name,
}

/// Why a report was rejected.
#[allow(inconsistent_fields)]
#[derive(Clone, Copy, Debug, PartialEq, Eq, Structural)]
pub enum FormatError {
    /// The header block does not have the expected shape.
    Header { field: HeaderField },
    /// A table row, by its line number counted from one, does not have the
    /// expected shape.
    Entry { line: usize, field: EntryField },
}

/// One file of the depot.
#[derive(Clone, Debug)]
pub struct DepotEntry {
    /// The path as the report writes it, with its own separators.
    pub path: String,
    pub size: u64,
    pub chunks: u32,
    /// The digest that the vendor computed, as written.
    pub hash: String,
    pub flags: u16,
}

pub struct DepotEntryView {
    pub path: Seq<char>,
    pub size: u64,
    pub chunks: u32,
    pub hash: Seq<char>,
    pub flags: u16,
}

impl View for DepotEntry {
    type V = DepotEntryView;

    open spec fn view(&self) -> DepotEntryView {
        DepotEntryView {
            path: self.path@,
            size: self.size,
            chunks: self.chunks,
            hash: self.hash@,
            flags: self.flags,
        }
    }
}

/// One parsed depot report.
#[derive(Clone, Debug)]
pub struct DepotManifest {
    pub depot_id: u32,
    pub manifest_id: u64,
    /// The snapshot date as written: `MM/DD/YYYY HH:MM:SS`.
    pub manifest_date: String,
    pub num_files: u64,
    pub num_chunks: u64,
    pub bytes_disk: u64,
    pub bytes_compressed: u64,
    /// The file rows, in the order of the report.
    pub entries: Vec<DepotEntry>,
}

pub struct DepotHeaderView {
    pub depot_id: u32,
    pub manifest_id: u64,
    pub manifest_date: Seq<char>,
    pub num_files: u64,
    pub num_chunks: u64,
    pub bytes_disk: u64,
    pub bytes_compressed: u64,
}

pub struct DepotManifestView {
    pub header: DepotHeaderView,
    pub entries: Seq<DepotEntryView>,
}

impl View for DepotManifest {
    type V = DepotManifestView;

    open spec fn view(&self) -> DepotManifestView {
        DepotManifestView {
            header: DepotHeaderView {
                depot_id: self.depot_id,
                manifest_id: self.manifest_id,
                manifest_date: self.manifest_date@,
                num_files: self.num_files,
                num_chunks: self.num_chunks,
                bytes_disk: self.bytes_disk,
                bytes_compressed: self.bytes_compressed,
            },
            entries: self.entries@.map_values(|e: DepotEntry| e@),
        }
    }
}

/// A row for a directory placeholder, which carries no file content.
pub open spec fn is_directory(e: DepotEntryView) -> bool {
    e.size == 0 || e.flags == DIRECTORY_FLAGS
}

/// The text of a list of lines.
pub open spec fn lines_view(lines: Seq<String>) -> Seq<Seq<char>> {
    lines.map_values(|l: String| l@)
}

/// Lines joined with line feeds.
pub open spec fn join_lines(ls: Seq<Seq<char>>) -> Seq<char>
    decreases ls.len(),
{
    if ls.len() == 0 {
        Seq::empty()
    } else if ls.len() == 1 {
        ls[0]
    } else {
        join_lines(ls.drop_last()) + seq!['\n'] + ls.last()
    }
}

/// The header block: the first lines of the report, joined.
pub open spec fn header_text(ls: Seq<Seq<char>>) -> Seq<char> {
    if ls.len() <= HEADER_LINES {
        join_lines(ls)
    } else {
        join_lines(ls.take(HEADER_LINES as int))
    }
}

/// `label`, optional whitespace, `": "` and a number at most `max`, after
/// optional whitespace from `i`.
pub open spec fn labelled_number(s: Seq<char>, i: int, label: Seq<char>, max: nat) -> Option<
    (nat, int),
> {
    let j = skip_spaces(s, i);
    if !literal_at(s, j, label) {
        None
    } else {
        let k = skip_spaces(s, j + label.len());
        if !literal_at(s, k, ": "@) {
            None
        } else {
            number_at(s, k + 2, max)
        }
    }
}

/// The end of a date written as digit runs joined by `seps`, in order.
pub open spec fn date_end(s: Seq<char>, i: int, seps: Seq<char>) -> Option<int>
    decreases seps.len(),
{
    let e = digits_end(s, i);
    if e == i {
        None
    } else if seps.len() == 0 {
        Some(e)
    } else if e < s.len() && s[e] == seps[0] {
        date_end(s, e + 1, seps.drop_first())
    } else {
        None
    }
}

/// The separators of a report date, `MM/DD/YYYY HH:MM:SS`.
pub open spec fn date_separators() -> Seq<char> {
    seq!['/', '/', ' ', ':', ':']
}

/// The four counters that close the header, from position `i`.
pub open spec fn header_counters(s: Seq<char>, i: int) -> Result<(u64, u64, u64, u64), HeaderField> {
    match labelled_number(s, i, "Total number of files"@, u64::MAX as nat) {
        None => Err(HeaderField::NumFiles),
        Some((files, i1)) => match labelled_number(s, i1, "Total number of chunks"@, u64::MAX as nat) {
            None => Err(HeaderField::NumChunks),
            Some((chunks, i2)) => match labelled_number(s, i2, "Total bytes on disk"@, u64::MAX as nat) {
                None => Err(HeaderField::BytesDisk),
                Some((disk, i3)) => match labelled_number(
                    s,
                    i3,
                    "Total bytes compressed"@,
                    u64::MAX as nat,
                ) {
                    None => Err(HeaderField::BytesCompressed),
                    Some((compressed, _)) => Ok(
                        (files as u64, chunks as u64, disk as u64, compressed as u64),
                    ),
                },
            },
        },
    }
}

/// The header fields of a header block, or the first field that is malformed.
pub open spec fn parse_header(s: Seq<char>) -> Result<DepotHeaderView, HeaderField> {
    let p0 = skip_spaces(s, 0);
    let title = "Content Manifest for Depot "@;
    if !literal_at(s, p0, title) {
        Err(HeaderField::DepotId)
    } else {
        match number_at(s, p0 + title.len(), u32::MAX as nat) {
            None => Err(HeaderField::DepotId),
            Some((depot, p1)) => match labelled_number(s, p1, "Manifest ID / date"@, u64::MAX as nat) {
                None => Err(HeaderField::ManifestId),
                Some((id, p2)) => if !literal_at(s, p2, " / "@) {
                    Err(HeaderField::ManifestDate)
                } else {
                    match date_end(s, p2 + 3, date_separators()) {
                        None => Err(HeaderField::ManifestDate),
                        Some(p3) => match header_counters(s, p3) {
                            Err(f) => Err(f),
                            Ok((files, chunks, disk, compressed)) => Ok(
                                DepotHeaderView {
                                    depot_id: depot as u32,
                                    manifest_id: id as u64,
                                    manifest_date: s.subrange(p2 + 3, p3),
                                    num_files: files,
                                    num_chunks: chunks,
                                    bytes_disk: disk,
                                    bytes_compressed: compressed,
                                },
                            ),
                        },
                    }
                },
            },
        }
    }
}

/// One table row: size, chunk count, hash and flags, separated by
/// whitespace, then after more whitespace the path, which runs to the end of
/// the line.
pub open spec fn parse_row(l: Seq<char>) -> Result<DepotEntryView, EntryField> {
    let i0 = skip_spaces(l, 0);
    match number_at(l, i0, u64::MAX as nat) {
        None => Err(EntryField::Size),
        Some((size, e0)) => if !token_ends(l, i0, e0) {
            Err(EntryField::Size)
        } else {
            let i1 = skip_spaces(l, e0);
            match number_at(l, i1, u32::MAX as nat) {
                None => Err(EntryField::Chunks),
                Some((chunks, e1)) => if !token_ends(l, i1, e1) {
                    Err(EntryField::Chunks)
                } else {
                    let i2 = skip_spaces(l, e1);
                    let e2 = word_end(l, i2);
                    if !token_ends(l, i2, e2) {
                        Err(EntryField::Hash)
                    } else {
                        let i3 = skip_spaces(l, e2);
                        match number_at(l, i3, u16::MAX as nat) {
                            None => Err(EntryField::Flags),
                            Some((flags, e3)) => if !token_ends(l, i3, e3) {
                                Err(EntryField::Flags)
                            } else {
                                let i4 = skip_spaces(l, e3);
                                if i4 >= l.len() {
                                    Err(EntryField::Name)
                                } else {
                                    Ok(
                                        DepotEntryView {
                                            path: l.subrange(i4, l.len() as int),
                                            size: size as u64,
                                            chunks: chunks as u32,
                                            hash: l.subrange(i2, e2),
                                            flags: flags as u16,
                                        },
                                    )
                                }
                            },
                        }
                    }
                },
            }
        },
    }
}

/// The file rows of the table lines before line `n`: empty lines are
/// skipped, directory rows dropped, and the first malformed row is an error.
pub open spec fn table_rows(ls: Seq<Seq<char>>, n: int) -> Result<Seq<DepotEntryView>, FormatError>
    decreases n,
{
    if n <= HEADER_LINES {
        Ok(Seq::empty())
    } else {
        match table_rows(ls, n - 1) {
            Err(e) => Err(e),
            Ok(rows) => {
                let l = ls[n - 1];
                if l.len() == 0 {
                    Ok(rows)
                } else {
                    match parse_row(l) {
                        Err(f) => Err(FormatError::Entry { line: n as usize, field: f }),
                        Ok(row) => if is_directory(row) {
                            Ok(rows)
                        } else {
                            Ok(rows.push(row))
                        },
                    }
                }
            },
        }
    }
}

/// A whole report, line by line.
pub open spec fn parse_report(ls: Seq<Seq<char>>) -> Result<DepotManifestView, FormatError> {
    match parse_header(header_text(ls)) {
        Err(f) => Err(FormatError::Header { field: f }),
        Ok(header) => match table_rows(ls, ls.len() as int) {
            Err(e) => Err(e),
            Ok(rows) => Ok(DepotManifestView { header, entries: rows }),
        },
    }
}

/// Once a row is malformed, the table stays rejected with that row's error.
pub proof fn lemma_table_error_persists(ls: Seq<Seq<char>>, m: int, n: int)
    requires
        m <= n,
        table_rows(ls, m) is Err,
    ensures
        table_rows(ls, n) == table_rows(ls, m),
    decreases n - m,
{
    if m < n {
        lemma_table_error_persists(ls, m, n - 1);
    }
}

/// How many file rows the table lines before line `n` hold: rows that are
/// well formed and are not directory placeholders.
pub open spec fn file_row_count(ls: Seq<Seq<char>>, n: int) -> nat
    decreases n,
{
    if n <= HEADER_LINES {
        0
    } else {
        file_row_count(ls, n - 1) + if ls[n - 1].len() > 0 && parse_row(ls[n - 1]) is Ok
            && !is_directory(parse_row(ls[n - 1])->Ok_0) {
            1nat
        } else {
            0nat
        }
    }
}

proof fn lemma_table_rows_are_files(ls: Seq<Seq<char>>, n: int)
    requires
        n <= ls.len(),
        table_rows(ls, n) is Ok,
    ensures
        table_rows(ls, n)->Ok_0.len() == file_row_count(ls, n),
        forall|i: int|
            0 <= i < table_rows(ls, n)->Ok_0.len() ==> !is_directory(
                #[trigger] table_rows(ls, n)->Ok_0[i],
            ),
    decreases n,
{
    if n > HEADER_LINES {
        lemma_table_rows_are_files(ls, n - 1);
    }
}

/// A report that parses yields exactly one entry for each of its file rows,
/// and never an entry for a directory placeholder.
pub proof fn lemma_parse_keeps_exactly_files(ls: Seq<Seq<char>>)
    ensures
        parse_report(ls) is Ok ==> parse_report(ls)->Ok_0.entries.len() == file_row_count(
            ls,
            ls.len() as int,
        ),
        parse_report(ls) is Ok ==> forall|i: int|
            0 <= i < parse_report(ls)->Ok_0.entries.len() ==> !is_directory(
                #[trigger] parse_report(ls)->Ok_0.entries[i],
            ),
{
    if parse_report(ls) is Ok {
        lemma_table_rows_are_files(ls, ls.len() as int);
    }
}

/// The view of a parse result.
pub open spec fn parse_result_view(r: Result<DepotManifest, FormatError>) -> Result<
    DepotManifestView,
    FormatError,
> {
    match r {
        Ok(m) => Ok(m@),
        Err(e) => Err(e),
    }
}

/// Reads `label`, optional whitespace, `": "` and a number at most `max`.
fn read_labelled(s: &Vec<char>, i: usize, label: &str, max: u64) -> (r: Option<(u64, usize)>)
    requires
        i <= s.len(),
    ensures
        match labelled_number(s@, i as int, label@, max as nat) {
            None => r is None,
            Some((v, e)) => r matches Some((rv, re)) && rv as nat == v && re as int == e,
        },
        r matches Some((v, e)) ==> i < e <= s.len(),
{
    let j = scan_spaces(s, i);
    if !scan_literal(s, j, label) {
        return None;
    }
    let k = scan_spaces(s, j + label.unicode_len());
    if !scan_literal(s, k, ": ") {
        return None;
    }
    proof {
        reveal_strlit(": ");
    }
    scan_number(s, k + 2, max)
}

/// Finds the end of a report date that starts at `i`.
fn read_date_end(s: &Vec<char>, i: usize) -> (r: Option<usize>)
    requires
        i <= s.len(),
    ensures
        match date_end(s@, i as int, date_separators()) {
            None => r is None,
            Some(e) => r matches Some(re) && re as int == e,
        },
        r matches Some(e) ==> i < e <= s.len(),
{
    let seps: Vec<char> = vec!['/', '/', ' ', ':', ':'];
    assert(seps@ =~= date_separators());
    assert(seps@.subrange(0, seps.len() as int) =~= date_separators());
    let mut k: usize = 0;
    let mut j = i;
    while k < seps.len()
        invariant
            seps@ == date_separators(),
            k <= seps.len(),
            i <= j <= s.len(),
            date_end(s@, i as int, date_separators()) == date_end(
                s@,
                j as int,
                seps@.subrange(k as int, seps.len() as int),
            ),
        decreases seps.len() - k,
    {
        let e = scan_digits(s, j);
        if e == j {
            return None;
        }
        if e < s.len() && s[e] == seps[k] {
            assert(seps@.subrange(k as int, seps.len() as int).drop_first() =~= seps@.subrange(
                k + 1,
                seps.len() as int,
            ));
            j = e + 1;
            k = k + 1;
        } else {
            return None;
        }
    }
    let e = scan_digits(s, j);
    if e == j {
        None
    } else {
        Some(e)
    }
}

/// The header block of `lines`: its first lines joined with line feeds.
fn join_header(lines: &Vec<String>) -> (r: Vec<char>)
    ensures
        r@ == header_text(lines_view(lines@)),
{
    let n = if lines.len() < HEADER_LINES {
        lines.len()
    } else {
        HEADER_LINES
    };
    let ghost ls = lines_view(lines@);
    let ghost taken = ls.take(n as int);
    assert(header_text(ls) == join_lines(taken)) by {
        if ls.len() <= HEADER_LINES {
            assert(taken =~= ls);
        }
    }
    let mut out: Vec<char> = Vec::new();
    let mut k: usize = 0;
    while k < n
        invariant
            n <= lines.len(),
            ls == lines_view(lines@),
            taken == ls.take(n as int),
            k <= n,
            out@ == join_lines(taken.take(k as int)),
        decreases n - k,
    {
        let line = chars_of(lines[k].as_str());
        assert(line@ == taken[k as int]);
        if k > 0 {
            out.push('\n');
        }
        let mut m: usize = 0;
        let ghost before = out@;
        assert(out@ =~= before + line@.take(0));
        while m < line.len()
            invariant
                k <= n,
                m <= line.len(),
                out@ == before + line@.take(m as int),
            decreases line.len() - m,
        {
            out.push(line[m]);
            m = m + 1;
            assert(out@ =~= before + line@.take(m as int));
        }
        assert(line@.take(m as int) =~= line@);
        assert(taken.take(k + 1).drop_last() =~= taken.take(k as int));
        if k == 0 {
            assert(out@ =~= join_lines(taken.take(1)));
        }
        k = k + 1;
    }
    assert(taken.take(n as int) =~= taken);
    out
}

/// Reads the header block, leaving the table empty.
fn read_header(s: &Vec<char>) -> (r: Result<DepotManifest, HeaderField>)
    ensures
        match parse_header(s@) {
            Ok(h) => r is Ok && r->Ok_0@.header == h && r->Ok_0.entries@.len() == 0,
            Err(f) => r == Err::<DepotManifest, HeaderField>(f),
        },
{
    let p0 = scan_spaces(s, 0);
    let title = "Content Manifest for Depot ";
    if !scan_literal(s, p0, title) {
        return Err(HeaderField::DepotId);
    }
    proof {
        reveal_strlit("Content Manifest for Depot ");
    }
    let (depot_id, p1) = match scan_number(s, p0 + title.unicode_len(), u32::MAX as u64) {
        None => return Err(HeaderField::DepotId),
        Some(x) => x,
    };
    let (manifest_id, p2) = match read_labelled(s, p1, "Manifest ID / date", u64::MAX) {
        None => return Err(HeaderField::ManifestId),
        Some(x) => x,
    };
    if !scan_literal(s, p2, " / ") {
        return Err(HeaderField::ManifestDate);
    }
    proof {
        reveal_strlit(" / ");
    }
    let p3 = match read_date_end(s, p2 + 3) {
        None => return Err(HeaderField::ManifestDate),
        Some(e) => e,
    };
    let manifest_date = string_of(s, p2 + 3, p3);
    let (num_files, i1) = match read_labelled(s, p3, "Total number of files", u64::MAX) {
        None => return Err(HeaderField::NumFiles),
        Some(x) => x,
    };
    let (num_chunks, i2) = match read_labelled(s, i1, "Total number of chunks", u64::MAX) {
        None => return Err(HeaderField::NumChunks),
        Some(x) => x,
    };
    let (bytes_disk, i3) = match read_labelled(s, i2, "Total bytes on disk", u64::MAX) {
        None => return Err(HeaderField::BytesDisk),
        Some(x) => x,
    };
    let (bytes_compressed, _) = match read_labelled(s, i3, "Total bytes compressed", u64::MAX) {
        None => return Err(HeaderField::BytesCompressed),
        Some(x) => x,
    };
    Ok(
        DepotManifest {
            depot_id: depot_id as u32,
            manifest_id,
            manifest_date,
            num_files,
            num_chunks,
            bytes_disk,
            bytes_compressed,
            entries: Vec::new(),
        },
    )
}

/// Reads one table row.
fn read_row(l: &Vec<char>) -> (r: Result<DepotEntry, EntryField>)
    ensures
        match parse_row(l@) {
            Ok(v) => r is Ok && r->Ok_0@ == v,
            Err(f) => r == Err::<DepotEntry, EntryField>(f),
        },
{
    let i0 = scan_spaces(l, 0);
    let (size, e0) = match scan_number(l, i0, u64::MAX) {
        None => return Err(EntryField::Size),
        Some(x) => x,
    };
    if !ends_at(l, e0) {
        return Err(EntryField::Size);
    }
    let i1 = scan_spaces(l, e0);
    let (chunks, e1) = match scan_number(l, i1, u32::MAX as u64) {
        None => return Err(EntryField::Chunks),
        Some(x) => x,
    };
    if !ends_at(l, e1) {
        return Err(EntryField::Chunks);
    }
    let i2 = scan_spaces(l, e1);
    let e2 = scan_word(l, i2);
    if e2 == i2 || !ends_at(l, e2) {
        return Err(EntryField::Hash);
    }
    let i3 = scan_spaces(l, e2);
    let (flags, e3) = match scan_number(l, i3, u16::MAX as u64) {
        None => return Err(EntryField::Flags),
        Some(x) => x,
    };
    if !ends_at(l, e3) {
        return Err(EntryField::Flags);
    }
    let i4 = scan_spaces(l, e3);
    if i4 >= l.len() {
        return Err(EntryField::Name);
    }
    Ok(
        DepotEntry {
            path: string_of(l, i4, l.len()),
            size,
            chunks: chunks as u32,
            hash: string_of(l, i2, e2),
            flags: flags as u16,
        },
    )
}

impl DepotManifest {
    /// Parses a report given as its lines. The header occupies the first
    /// lines; every later non-empty line is a table row, and directory rows
    /// are left out.
    pub fn parse_from_lines(lines: &Vec<String>) -> (r: Result<DepotManifest, FormatError>)
        ensures
            parse_result_view(r) == parse_report(lines_view(lines@)),
    {
        let ghost ls = lines_view(lines@);
        let text = join_header(lines);
        let mut manifest = match read_header(&text) {
            Err(f) => return Err(FormatError::Header { field: f }),
            Ok(m) => m,
        };
        let ghost header = manifest@.header;
        assert(manifest@.entries =~= Seq::<DepotEntryView>::empty());
        let mut k: usize = HEADER_LINES;
        if lines.len() <= HEADER_LINES {
            k = lines.len();
        }
        while k < lines.len()
            invariant
                ls == lines_view(lines@),
                parse_header(header_text(ls)) == Ok::<DepotHeaderView, HeaderField>(header),
                HEADER_LINES <= k <= lines.len() || k == lines.len() <= HEADER_LINES,
                table_rows(ls, k as int) == Ok::<Seq<DepotEntryView>, FormatError>(
                    manifest@.entries,
                ),
                manifest@.header == header,
            decreases lines.len() - k,
        {
            let line = chars_of(lines[k].as_str());
            assert(line@ == ls[k as int]);
            if line.len() > 0 {
                match read_row(&line) {
                    Err(f) => {
                        proof {
                            lemma_table_error_persists(ls, k + 1, ls.len() as int);
                        }
                        return Err(FormatError::Entry { line: k + 1, field: f });
                    },
                    Ok(entry) => {
                        if entry.size != 0 && entry.flags != DIRECTORY_FLAGS {
                            let ghost before = manifest.entries@;
                            manifest.entries.push(entry);
                            assert(manifest.entries@.map_values(|e: DepotEntry| e@) =~= before.map_values(
                                |e: DepotEntry| e@,
                            ).push(entry@));
                        }
                    },
                }
            }
            k = k + 1;
        }
        Ok(manifest)
    }

    /// Parses a report given as one text, split into lines at line feeds.
    pub fn parse_from_string(s: &str) -> (r: Result<DepotManifest, FormatError>)
        ensures
            parse_result_view(r) == parse_report(lines_from(s@, 0)),
    {
        let lines = split_lines(s);
        DepotManifest::parse_from_lines(&lines)
    }

    /// The entry recorded for `path`: a later row for the same path replaces
    /// an earlier one.
    pub fn entry(&self, path: &str) -> (r: Option<&DepotEntry>)
        ensures
            match r {
                Some(e) => exists|j: int|
                    0 <= j < self.entries.len() && self.entries@[j] == *e && e.path@ == path@
                        && forall|k: int|
                        j < k < self.entries.len() ==> #[trigger] self.entries@[k].path@ != path@,
                None => forall|k: int|
                    0 <= k < self.entries.len() ==> #[trigger] self.entries@[k].path@ != path@,
            },
    {
        let mut i = self.entries.len();
        while i > 0
            invariant
                i <= self.entries.len(),
                forall|k: int| i <= k < self.entries.len() ==> #[trigger] self.entries@[k].path@ != path@,
            decreases i,
        {
            i = i - 1;
            if same_text(self.entries[i].path.as_str(), path) {
                return Some(&self.entries[i]);
            }
        }
        None
    }
}

} // verus!
