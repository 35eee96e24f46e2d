//! From the text of a status report to the records of its arrays.

use crate::digits::{count_of, decimal, lemma_decimal_reads_back, parse_count};
use crate::pattern::{
    captures_all, regex_accepts, regex_captures, regex_replace_first, replace_first,
};
use crate::raid::{Raid, RaidModel};
use vstd::prelude::*;

verus! {

/// Matches the line that introduces a status report: the word
/// `Personalities` and the rest of its line.
pub const HEADER_PATTERN: &'static str = "Personalities.*";

/// Matches the block of one array: a name, then ` :`, then anything up to
/// the first bracketed pair of digits, `[configured/active]`.
pub const BLOCK_PATTERN: &'static str = "(?m)(.+?) :[\\w\\W]*?\\[(\\d)/(\\d)]";

/// Why a status report could not be parsed.
#[derive(Debug, Clone, Copy, PartialEq, Eq, Structural)]
pub enum ParseError {
    /// One of the two patterns did not compile.
    Pattern,
    /// A block lacks its name or one of its two device counts.
    MalformedBlock,
    /// A device count is not a decimal number that fits in a byte.
    InvalidCount,
}

/// The record that one block stands for. The groups of a block are the
/// whole block, the array's name, the configured count and the active
/// count, in that order.
pub open spec fn record_of(groups: Seq<Option<Seq<char>>>) -> Result<RaidModel, ParseError> {
    if groups.len() < 4 || groups[1] is None || groups[2] is None || groups[3] is None {
        Err(ParseError::MalformedBlock)
    } else {
        match (count_of(groups[2]->Some_0), count_of(groups[3]->Some_0)) {
            (Some(all), Some(current)) => Ok(
                RaidModel {
                    name: groups[1]->Some_0,
                    all_devices: all as nat,
                    current_devices: current as nat,
                },
            ),
            _ => Err(ParseError::InvalidCount),
        }
    }
}

/// The records that a sequence of blocks stands for, in the order of the
/// blocks; the error of the first block that stands for none.
pub open spec fn records_of(blocks: Seq<Seq<Option<Seq<char>>>>) -> Result<
    Seq<RaidModel>,
    ParseError,
>
    decreases blocks.len(),
{
    if blocks.len() == 0 {
        Ok(Seq::empty())
    } else {
        match records_of(blocks.drop_last()) {
            Err(e) => Err(e),
            Ok(records) => match record_of(blocks.last()) {
                Err(e) => Err(e),
                Ok(record) => Ok(records.push(record)),
            },
        }
    }
}

/// The status report without its header line.
pub open spec fn header_stripped(text: Seq<char>) -> Seq<char> {
    regex_replace_first(HEADER_PATTERN@, text, Seq::empty())
}

/// The records of a status report: those of the blocks that are found in
/// the report once its header line is removed.
pub open spec fn parsed(text: Seq<char>) -> Result<Seq<RaidModel>, ParseError> {
    if !regex_accepts(HEADER_PATTERN@) || !regex_accepts(BLOCK_PATTERN@) {
        Err(ParseError::Pattern)
    } else {
        records_of(regex_captures(BLOCK_PATTERN@, header_stripped(text)))
    }
}

/// The mathematical content of a parsed record, or the error.
pub open spec fn record_view(out: Result<Raid, ParseError>) -> Result<RaidModel, ParseError> {
    match out {
        Ok(record) => Ok(record@),
        Err(e) => Err(e),
    }
}

/// The mathematical content of the parsed records, or the error.
pub open spec fn records_view(out: Result<Vec<Raid>, ParseError>) -> Result<
    Seq<RaidModel>,
    ParseError,
> {
    match out {
        Ok(records) => Ok(records.deep_view()),
        Err(e) => Err(e),
    }
}

/// Makes the record of one block from the block's groups.
pub fn record_from_groups(groups: &Vec<Option<String>>) -> (out: Result<Raid, ParseError>)
    ensures
        record_view(out) == record_of(groups.deep_view()),
{
    if groups.len() < 4 {
        return Err(ParseError::MalformedBlock);
    }
    match (&groups[1], &groups[2], &groups[3]) {
        (Some(name), Some(all), Some(current)) => {
            match (parse_count(all.as_str()), parse_count(current.as_str())) {
                (Some(all_devices), Some(current_devices)) => Ok(
                    Raid { name: name.clone(), all_devices, current_devices },
                ),
                _ => Err(ParseError::InvalidCount),
            }
        },
        _ => Err(ParseError::MalformedBlock),
    }
}

/// Makes the records of a sequence of blocks, in the order of the blocks.
/// Fails with the error of the first block that stands for no record.
pub fn records_from_captures(blocks: &Vec<Vec<Option<String>>>) -> (out: Result<
    Vec<Raid>,
    ParseError,
>)
    ensures
        records_view(out) == records_of(blocks.deep_view()),
{
    let ghost all = blocks.deep_view();
    let mut records: Vec<Raid> = Vec::new();
    let mut i: usize = 0;
    assert(records.deep_view() =~= Seq::empty());
    while i < blocks.len()
        invariant
            i <= blocks.len(),
            all == blocks.deep_view(),
            records_of(all.take(i as int)) == Ok::<Seq<RaidModel>, ParseError>(
                records.deep_view(),
            ),
        decreases blocks.len() - i,
    {
        proof {
            assert(all.take(i + 1).drop_last() =~= all.take(i as int));
        }
        let ghost before = records.deep_view();
        match record_from_groups(&blocks[i]) {
            Ok(record) => {
                records.push(record);
                assert(records.deep_view() =~= before.push(record@));
            },
            Err(e) => {
                proof {
                    lemma_first_error_stays(all, i + 1);
                }
                return Err(e);
            },
        }
        i += 1;
    }
    assert(all.take(i as int) =~= all);
    Ok(records)
}

/// Once the blocks up to `k` give an error, all the blocks give that error.
proof fn lemma_first_error_stays(blocks: Seq<Seq<Option<Seq<char>>>>, k: int)
    requires
        0 <= k <= blocks.len(),
        records_of(blocks.take(k)) is Err,
    ensures
        records_of(blocks) == records_of(blocks.take(k)),
    decreases blocks.len(),
{
    if k == blocks.len() {
        assert(blocks.take(k) =~= blocks);
    } else {
        assert(blocks.drop_last().take(k) =~= blocks.take(k));
        lemma_first_error_stays(blocks.drop_last(), k);
    }
}

/// Whether `groups` are those of a block that shows `record`: its name in
/// the first group after the whole match, then its configured and its
/// active device count as decimal numerals.
pub open spec fn shows(groups: Seq<Option<Seq<char>>>, record: RaidModel) -> bool {
    &&& groups.len() == 4
    &&& groups[1] == Some(record.name)
    &&& groups[2] == Some(decimal(record.all_devices))
    &&& groups[3] == Some(decimal(record.current_devices))
}

/// Blocks that show records give those records back: as many as there are
/// blocks, in the order of the blocks, each with its name and its two
/// counts. The counts are such as fit in a byte.
pub proof fn law_blocks_give_their_records(
    blocks: Seq<Seq<Option<Seq<char>>>>,
    records: Seq<RaidModel>,
)
    requires
        blocks.len() == records.len(),
        forall|i: int|
            0 <= i < records.len() ==> {
                &&& shows(#[trigger] blocks[i], records[i])
                &&& records[i].all_devices <= u8::MAX
                &&& records[i].current_devices <= u8::MAX
            },
    ensures
        records_of(blocks) == Ok::<Seq<RaidModel>, ParseError>(records),
    decreases blocks.len(),
{
    if blocks.len() == 0 {
        assert(records =~= Seq::empty());
    } else {
        let n = blocks.len() - 1;
        law_blocks_give_their_records(blocks.drop_last(), records.drop_last());
        lemma_decimal_reads_back(records[n].all_devices);
        lemma_decimal_reads_back(records[n].current_devices);
        assert(records.drop_last().push(records[n]) =~= records);
    }
}

/// Removes the first match of `pattern` from `text`. Fails if the pattern
/// does not compile.
pub fn remove_first(pattern: &str, text: &str) -> (out: Result<String, ParseError>)
    ensures
        out is Ok <==> regex_accepts(pattern@),
        out matches Ok(rest) ==> rest@ == regex_replace_first(pattern@, text@, Seq::empty()),
        out matches Err(e) ==> e == ParseError::Pattern,
{
    proof {
        reveal_strlit("");
        assert(""@ =~= Seq::<char>::empty());
    }
    match replace_first(pattern, text, "") {
        Ok(rest) => Ok(rest),
        Err(_) => Err(ParseError::Pattern),
    }
}

/// Finds the matches of `pattern` in `text`, each as the texts of its
/// groups. Fails if the pattern does not compile.
pub fn find_blocks(pattern: &str, text: &str) -> (out: Result<
    Vec<Vec<Option<String>>>,
    ParseError,
>)
    ensures
        out is Ok <==> regex_accepts(pattern@),
        out matches Ok(blocks) ==> blocks.deep_view() == regex_captures(pattern@, text@),
        out matches Err(e) ==> e == ParseError::Pattern,
{
    match captures_all(pattern, text) {
        Ok(blocks) => Ok(blocks),
        Err(_) => Err(ParseError::Pattern),
    }
}

/// Removes the header line from a status report.
pub fn strip_header(text: &str) -> (out: Result<String, ParseError>)
    ensures
        out is Ok <==> regex_accepts(HEADER_PATTERN@),
        out matches Ok(rest) ==> rest@ == header_stripped(text@),
        out matches Err(e) ==> e == ParseError::Pattern,
{
    remove_first(HEADER_PATTERN, text)
}

/// Parses a status report into the records of its arrays, in the order in
/// which the arrays stand in the report.
pub fn parse_status(text: &str) -> (out: Result<Vec<Raid>, ParseError>)
    ensures
        records_view(out) == parsed(text@),
{
    let rest = strip_header(text)?;
    let blocks = find_blocks(BLOCK_PATTERN, rest.as_str())?;
    records_from_captures(&blocks)
}

} // verus!
