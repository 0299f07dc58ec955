//! Thin provisioned devices over a thin pool: their ids, their device-mapper
//! table, the messages sent to the pool about them, and their status.
use vstd::prelude::*;

use crate::result::{DmError, DmResult, ErrorEnum};
use crate::text::{
    decimal, decimal_string, is_digit, lemma_decimal_digits, lemma_digits_lack,
    lemma_parse_decimal, lemma_split_first, lemma_split_no_sep, parse_u64, parsed_u64, pieces,
    push_decimal, split_on, starts_with,
};
use crate::types::{Sectors, TargetLine};

verus! {

/// Thin ids are below this bound: 2 ^ 24.
pub const THIN_DEV_ID_LIMIT: u64 = 0x1_000_000;

/// A thindev id is a 24 bit number, i.e., its bit width is not a power of 2.
#[derive(Clone, Copy, Debug, PartialEq, Eq, Hash, Structural)]
pub struct ThinDevId {
    value: u32,
}

impl View for ThinDevId {
    type V = u32;

    closed spec fn view(&self) -> u32 {
        self.value
    }
}

impl ThinDevId {
    /// Every thin id fits in 24 bits.
    #[verifier::type_invariant]
    spec fn fits_24_bits(self) -> bool {
        self.value < THIN_DEV_ID_LIMIT
    }
}

/// Ids are equal exactly when their values are.
pub proof fn lemma_thin_dev_id_eq(a: ThinDevId, b: ThinDevId)
    ensures
        a@ == b@ <==> a == b,
{
}

/// The bound on thin ids is two to the 24th: ids are exactly the 24-bit
/// numbers.
pub proof fn lemma_limit_is_24_bits()
    ensures
        THIN_DEV_ID_LIMIT == vstd::arithmetic::power2::pow2(24),
        THIN_DEV_ID_LIMIT - 1 == 0xff_ffff,
{
    vstd::arithmetic::power2::lemma2_to64();
}

/// The message with which `new_u64` refuses `value`.
pub open spec fn unrepresentable_message(value: u64) -> Seq<char> {
    "argument "@ + decimal(value as nat) + " unrepresentable in 24 bits"@
}

impl ThinDevId {
    /// Make a new ThinDevId.
    /// Return an error if value is too large to represent in 24 bits.
    pub fn new_u64(value: u64) -> (r: DmResult<ThinDevId>)
        ensures
            r is Ok <==> value < THIN_DEV_ID_LIMIT,
            r matches Ok(id) ==> id@ == value,
            r matches Err(DmError::Dm(kind, msg)) ==> kind == ErrorEnum::Invalid && msg@
                == unrepresentable_message(value),
    {
        if value < THIN_DEV_ID_LIMIT {
            Ok(ThinDevId { value: value as u32 })
        } else {
            let mut msg = "argument ".to_owned();
            push_decimal(&mut msg, value);
            msg.append(" unrepresentable in 24 bits");
            Err(DmError::Dm(ErrorEnum::Invalid, msg))
        }
    }

    /// The id that a serialized id denotes, the stored `u32`; an error, as
    /// `new_u64` gives it, where the value does not fit in 24 bits.
    pub fn from_serialized(value: u32) -> (r: DmResult<ThinDevId>)
        ensures
            r is Ok <==> value < THIN_DEV_ID_LIMIT,
            r matches Ok(id) ==> id@ == value,
            r matches Err(DmError::Dm(kind, msg)) ==> kind == ErrorEnum::Invalid && msg@
                == unrepresentable_message(value as u64),
    {
        ThinDevId::new_u64(value as u64)
    }

    /// The id in decimal, as it is displayed.
    pub fn to_string(&self) -> (s: String)
        ensures
            s@ == decimal(self@ as nat),
            self@ < THIN_DEV_ID_LIMIT,
    {
        proof {
            use_type_invariant(self);
        }
        decimal_string(self.value as u64)
    }
}

impl From<ThinDevId> for u32 {
    fn from(id: ThinDevId) -> (r: u32)
        ensures
            r == id@,
            r < THIN_DEV_ID_LIMIT,
    {
        proof {
            use_type_invariant(&id);
        }
        id.value
    }
}

impl vstd::std_specs::convert::FromSpecImpl<ThinDevId> for u32 {
    open spec fn obeys_from_spec() -> bool {
        true
    }

    open spec fn from_spec(v: ThinDevId) -> u32 {
        v@
    }
}

/// What `new_u64` accepts, `u32::from` gives back: an id made from `value`
/// converts to `value` again.
pub proof fn lemma_new_u64_into_u32(value: u64, id: ThinDevId)
    requires
        value < THIN_DEV_ID_LIMIT,
        id@ == value,
    ensures
        <u32 as vstd::std_specs::convert::FromSpec<ThinDevId>>::from_spec(id) == value,
        id@ < THIN_DEV_ID_LIMIT,
{
}

/// Thin device status.
#[derive(Debug, Clone, Copy)]
pub enum ThinStatus {
    /// Thin device is good. Includes number of mapped sectors, and
    /// highest mapped sector.
    Good((Sectors, Sectors)),
    /// Thin device is failed.
    Fail,
}

/// Why a status that the kernel reported for a thin device cannot be read.
#[derive(Debug, Clone, Copy, PartialEq, Eq, Structural)]
pub enum ThinStatusError {
    /// The kernel must return 1 line from thin status; it returned this many.
    LineCount(usize),
    /// The kernel must return at least 2 values from thin pool status.
    TooFewValues,
    /// The mapped sector count value must be valid.
    BadMappedCount,
    /// The highest mapped sector value must be valid.
    BadHighestMapped,
}

/// The text with which a failed thin device's status begins.
pub open spec fn fail_prefix() -> Seq<char> {
    seq!['F', 'a', 'i', 'l']
}

/// The status that the status line `line` of a thin device reports: `Fail`
/// where the line begins with `Fail`; otherwise the first two values of the
/// line, split at single spaces, as the number of mapped sectors and the
/// highest mapped sector.
pub open spec fn status_of_line(line: Seq<char>) -> Result<ThinStatus, ThinStatusError> {
    if fail_prefix().is_prefix_of(line) {
        Ok(ThinStatus::Fail)
    } else {
        let vals = pieces(line, ' ');
        if vals.len() < 2 {
            Err(ThinStatusError::TooFewValues)
        } else {
            match parsed_u64(vals[0]) {
                None => Err(ThinStatusError::BadMappedCount),
                Some(mapped) => match parsed_u64(vals[1]) {
                    None => Err(ThinStatusError::BadHighestMapped),
                    Some(highest) => Ok(ThinStatus::Good((Sectors(mapped), Sectors(highest)))),
                },
            }
        }
    }
}

/// The status that the kernel's status table `lines` of a thin device
/// reports: that of the parameters of its only line.
pub open spec fn status_of_table(lines: Seq<TargetLine>) -> Result<ThinStatus, ThinStatusError> {
    if lines.len() != 1 {
        Err(ThinStatusError::LineCount(lines.len() as usize))
    } else {
        status_of_line(lines[0].3@)
    }
}

/// The thin target's parameters: `<thinpool maj:min> <thin_id>`.
pub open spec fn thin_params(thin_pool_dstr: Seq<char>, thin_id: u32) -> Seq<char> {
    thin_pool_dstr + seq![' '] + decimal(thin_id as nat)
}

/// Whether `table` is the table of a thin device with id `thin_id` and
/// `length` sectors over the pool `thin_pool_dstr`: exactly one entry, from
/// sector 0, of target type `thin`.
pub open spec fn is_thin_table(
    table: Seq<TargetLine>,
    thin_pool_dstr: Seq<char>,
    thin_id: u32,
    length: Sectors,
) -> bool {
    &&& table.len() == 1
    &&& table[0].0 == Sectors(0)
    &&& table[0].1 == length
    &&& table[0].2@ == "thin"@
    &&& table[0].3@ == thin_params(thin_pool_dstr, thin_id)
}

/// The message that asks the pool to create the thin device `thin_id`.
pub open spec fn create_thin_text(thin_id: u32) -> Seq<char> {
    "create_thin "@ + decimal(thin_id as nat)
}

/// The message that asks the pool to delete the thin device `thin_id`.
pub open spec fn delete_text(thin_id: u32) -> Seq<char> {
    "delete "@ + decimal(thin_id as nat)
}

/// The id in a thin table's parameters can be read back: where the pool's
/// device holds no space, the parameters split at spaces into the pool's device
/// and the id in decimal, and that reads back as the id.
pub proof fn lemma_thin_params_read_back(thin_pool_dstr: Seq<char>, thin_id: u32)
    requires
        !thin_pool_dstr.contains(' '),
    ensures
        pieces(thin_params(thin_pool_dstr, thin_id), ' ') == seq![
            thin_pool_dstr,
            decimal(thin_id as nat),
        ],
        parsed_u64(pieces(thin_params(thin_pool_dstr, thin_id), ' ')[1]) == Some(thin_id as u64),
{
    let d = decimal(thin_id as nat);
    lemma_decimal_digits(thin_id as nat);
    lemma_digits_lack(d, ' ');
    lemma_split_first(thin_pool_dstr, d, ' ');
    lemma_split_no_sep(d, ' ');
    assert(seq![thin_pool_dstr] + seq![d] =~= seq![thin_pool_dstr, d]);
    lemma_parse_decimal(thin_id as u64);
}

/// A status line that reports `mapped` mapped sectors and `highest` as the
/// highest mapped sector, in the kernel's form `<mapped> <highest>`, reads
/// back as a good status with those two values.
pub proof fn lemma_status_line_read_back(mapped: u64, highest: u64)
    ensures
        status_of_line(decimal(mapped as nat) + seq![' '] + decimal(highest as nat)) == Ok::<
            ThinStatus,
            ThinStatusError,
        >(ThinStatus::Good((Sectors(mapped), Sectors(highest)))),
{
    let a = decimal(mapped as nat);
    let b = decimal(highest as nat);
    let line = a + seq![' '] + b;
    lemma_decimal_digits(mapped as nat);
    lemma_decimal_digits(highest as nat);
    lemma_digits_lack(a, ' ');
    lemma_digits_lack(b, ' ');
    assert(!fail_prefix().is_prefix_of(line)) by {
        assert(line[0] == a[0]);
        assert(is_digit(a[0]));
    }
    lemma_split_first(a, b, ' ');
    lemma_split_no_sep(b, ' ');
    assert(pieces(line, ' ') =~= seq![a, b]);
    lemma_parse_decimal(mapped);
    lemma_parse_decimal(highest);
}

/// Every status line that begins with `Fail` reports a failed device,
/// whatever follows.
pub proof fn lemma_fail_line(rest: Seq<char>)
    ensures
        status_of_line(seq!['F', 'a', 'i', 'l'] + rest) == Ok::<ThinStatus, ThinStatusError>(
            ThinStatus::Fail,
        ),
{
    let line = seq!['F', 'a', 'i', 'l'] + rest;
    assert(fail_prefix().is_prefix_of(line)) by {
        assert(line.subrange(0, 4) =~= fail_prefix());
    }
}

/// A thin table is the one line `0 <length> thin <pool> <id>`: its only
/// entry starts at sector 0, has exactly the requested length, has target type
/// `thin`, and its parameters are the pool's device, a space and the id in
/// decimal; where the pool's device holds no space, the parameters split into
/// the pool's device and a field that reads back as the id.
pub proof fn lemma_thin_table_is_the_requested_line(
    table: Seq<TargetLine>,
    thin_pool_dstr: Seq<char>,
    thin_id: u32,
    length: Sectors,
)
    requires
        is_thin_table(table, thin_pool_dstr, thin_id, length),
    ensures
        table.len() == 1,
        table[0].0 == Sectors(0),
        table[0].1 == length,
        table[0].1.0 == length.0,
        table[0].2@ == seq!['t', 'h', 'i', 'n'],
        table[0].3@ == thin_pool_dstr + seq![' '] + decimal(thin_id as nat),
        !thin_pool_dstr.contains(' ') ==> pieces(table[0].3@, ' ') == seq![
            thin_pool_dstr,
            decimal(thin_id as nat),
        ],
        !thin_pool_dstr.contains(' ') ==> parsed_u64(pieces(table[0].3@, ' ')[1]) == Some(
            thin_id as u64,
        ),
{
    reveal_strlit("thin");
    if !thin_pool_dstr.contains(' ') {
        lemma_thin_params_read_back(thin_pool_dstr, thin_id);
    }
}

/// The word and the id of a pool message `<word> <id>`: it splits at its one
/// space into `word` and the id in decimal, and the second field reads back as
/// the id.
proof fn lemma_message_reads_back(word: Seq<char>, thin_id: u32)
    requires
        !word.contains(' '),
    ensures
        pieces(word + seq![' '] + decimal(thin_id as nat), ' ') == seq![word, decimal(thin_id as nat)],
        parsed_u64(pieces(word + seq![' '] + decimal(thin_id as nat), ' ')[1]) == Some(
            thin_id as u64,
        ),
{
    lemma_thin_params_read_back(word, thin_id);
}

/// The create message names the whole id it is given: it is `create_thin`, a
/// space and the id in decimal, and its second field reads back as the id.
pub proof fn lemma_create_thin_text_names_id(thin_id: u32)
    ensures
        create_thin_text(thin_id) == seq!['c', 'r', 'e', 'a', 't', 'e', '_', 't', 'h', 'i', 'n']
            + seq![' '] + decimal(thin_id as nat),
        pieces(create_thin_text(thin_id), ' ') == seq![
            seq!['c', 'r', 'e', 'a', 't', 'e', '_', 't', 'h', 'i', 'n'],
            decimal(thin_id as nat),
        ],
        parsed_u64(pieces(create_thin_text(thin_id), ' ')[1]) == Some(thin_id as u64),
{
    reveal_strlit("create_thin ");
    let word = seq!['c', 'r', 'e', 'a', 't', 'e', '_', 't', 'h', 'i', 'n'];
    assert("create_thin "@ =~= word + seq![' ']);
    assert(create_thin_text(thin_id) =~= word + seq![' '] + decimal(thin_id as nat));
    assert(!word.contains(' ')) by {
        if word.contains(' ') {
            let k = choose|k: int| 0 <= k < word.len() && word[k] == ' ';
            assert(word[k] != ' ');
        }
    }
    lemma_message_reads_back(word, thin_id);
}

/// The delete message names the whole id it is given: it is `delete`, a
/// space and the id in decimal, and its second field reads back as the id.
pub proof fn lemma_delete_text_names_id(thin_id: u32)
    ensures
        delete_text(thin_id) == seq!['d', 'e', 'l', 'e', 't', 'e'] + seq![' '] + decimal(
            thin_id as nat,
        ),
        pieces(delete_text(thin_id), ' ') == seq![
            seq!['d', 'e', 'l', 'e', 't', 'e'],
            decimal(thin_id as nat),
        ],
        parsed_u64(pieces(delete_text(thin_id), ' ')[1]) == Some(thin_id as u64),
{
    reveal_strlit("delete ");
    let word = seq!['d', 'e', 'l', 'e', 't', 'e'];
    assert("delete "@ =~= word + seq![' ']);
    assert(delete_text(thin_id) =~= word + seq![' '] + decimal(thin_id as nat));
    assert(!word.contains(' ')) by {
        if word.contains(' ') {
            let k = choose|k: int| 0 <= k < word.len() && word[k] == ' ';
            assert(word[k] != ' ');
        }
    }
    lemma_message_reads_back(word, thin_id);
}

/// The status of a one-line status table is that of the line's parameters
/// alone, whatever the line's start, length and target type: where those
/// parameters are `<mapped> <highest>`, it is a good status with the mapped
/// sector count first and the highest mapped sector second.
pub proof fn lemma_one_line_status_table(line: TargetLine, mapped: u64, highest: u64)
    ensures
        status_of_table(seq![line]) == status_of_line(line.3@),
        line.3@ == decimal(mapped as nat) + seq![' '] + decimal(highest as nat) ==> status_of_table(
            seq![line],
        ) == Ok::<ThinStatus, ThinStatusError>(
            ThinStatus::Good((Sectors(mapped), Sectors(highest))),
        ),
{
    lemma_status_line_read_back(mapped, highest);
}

/// Growing a thin device gives the table of the grown device: one entry of
/// exactly the new size, which is the old size plus the sectors added, and
/// the same pool and id.
pub proof fn lemma_extended_table(
    table: Seq<TargetLine>,
    before: ThinDevView,
    after: ThinDevView,
    sectors: Sectors,
)
    requires
        before.size.0 + sectors.0 <= u64::MAX,
        after == (ThinDevView { size: Sectors((before.size.0 + sectors.0) as u64), ..before }),
        is_thin_table(table, after.thinpool_dstr, after.thin_id@, after.size),
    ensures
        table.len() == 1,
        table[0].1.0 == before.size.0 + sectors.0,
        table[0].3@ == before.thinpool_dstr + seq![' '] + decimal(before.thin_id@ as nat),
{
    lemma_thin_table_is_the_requested_line(table, after.thinpool_dstr, after.thin_id@, after.size);
}

/// What a thin device is: its name, its id in the pool, its (virtual) size,
/// and the `maj:min` of the pool that backs it.
pub struct ThinDevView {
    pub name: Seq<char>,
    pub thin_id: ThinDevId,
    pub size: Sectors,
    pub thinpool_dstr: Seq<char>,
}

/// DM construct for a thin block device
pub struct ThinDev {
    name: String,
    thin_id: ThinDevId,
    size: Sectors,
    thinpool_dstr: String,
}

impl View for ThinDev {
    type V = ThinDevView;

    closed spec fn view(&self) -> ThinDevView {
        ThinDevView {
            name: self.name@,
            thin_id: self.thin_id,
            size: self.size,
            thinpool_dstr: self.thinpool_dstr@,
        }
    }
}

/// What setting up a thin device does, once it is known whether
/// device-mapper already has a device of its name.
pub enum SetupStep {
    /// The device exists: take what the kernel reports of it.
    QueryStatus,
    /// The device does not exist: create it and load this table.
    CreateAndLoad(Vec<TargetLine>),
}

/// support use of DM for thin provisioned devices over pools
impl ThinDev {
    /// The step that sets up the thin device `thin_id` of `length` sectors
    /// over the pool `thin_pool_dstr`: an existing device is only queried; a
    /// new one is created and loaded with the thin table.
    pub fn setup_step(
        device_exists: bool,
        thin_pool_dstr: &str,
        thin_id: ThinDevId,
        length: Sectors,
    ) -> (step: SetupStep)
        ensures
            device_exists <==> step is QueryStatus,
            step matches SetupStep::CreateAndLoad(table) ==> is_thin_table(
                table@,
                thin_pool_dstr@,
                thin_id@,
                length,
            ),
    {
        if device_exists {
            SetupStep::QueryStatus
        } else {
            SetupStep::CreateAndLoad(ThinDev::dm_table(thin_pool_dstr, thin_id, length))
        }
    }

    /// The thin device named `name`, with id `thin_id` and `length` sectors,
    /// over the pool whose device is `thin_pool_dstr`, as set up.
    pub fn from_parts(
        name: String,
        thin_pool_dstr: String,
        thin_id: ThinDevId,
        length: Sectors,
    ) -> (dev: ThinDev)
        ensures
            dev@ == (ThinDevView {
                name: name@,
                thin_id: thin_id,
                size: length,
                thinpool_dstr: thin_pool_dstr@,
            }),
    {
        ThinDev { name, thin_id, size: length, thinpool_dstr: thin_pool_dstr }
    }

    /// Generate a table to be passed to DM. The format of the table
    /// entries is:
    /// <start> <length> "thin" <thin device specific string>
    /// where the thin device specific string has the format:
    /// <thinpool maj:min> <thin_id>
    /// There is exactly one entry in the table.
    pub fn dm_table(thin_pool_dstr: &str, thin_id: ThinDevId, length: Sectors) -> (table: Vec<
        TargetLine,
    >)
        ensures
            is_thin_table(table@, thin_pool_dstr@, thin_id@, length),
    {
        let mut params = thin_pool_dstr.to_owned();
        params.append(" ");
        push_decimal(&mut params, thin_id.value as u64);
        proof {
            reveal_strlit(" ");
            assert(params@ =~= thin_params(thin_pool_dstr@, thin_id@));
        }
        vec![(Sectors::default(), length, "thin".to_owned(), params)]
    }

    /// The message that asks the pool to create the thin device `thin_id`.
    pub fn create_thin_message(thin_id: ThinDevId) -> (msg: String)
        ensures
            msg@ == create_thin_text(thin_id@),
    {
        let mut msg = "create_thin ".to_owned();
        push_decimal(&mut msg, thin_id.value as u64);
        msg
    }

    /// The message that asks the pool to delete the thin device `thin_id`.
    pub fn delete_message(thin_id: ThinDevId) -> (msg: String)
        ensures
            msg@ == delete_text(thin_id@),
    {
        let mut msg = "delete ".to_owned();
        push_decimal(&mut msg, thin_id.value as u64);
        msg
    }

    /// return the thin id of the linear device
    pub fn id(&self) -> (id: ThinDevId)
        ensures
            id == self@.thin_id,
    {
        self.thin_id
    }

    /// The (virtual) size of the thin device.
    pub fn size(&self) -> (size: Sectors)
        ensures
            size == self@.size,
    {
        self.size
    }

    /// The name of the thin device.
    pub fn name(&self) -> (name: &str)
        ensures
            name@ == self@.name,
    {
        self.name.as_str()
    }

    /// The device (`maj:min`) of the pool that backs the thin device.
    pub fn thinpool_dstr(&self) -> (dstr: &str)
        ensures
            dstr@ == self@.thinpool_dstr,
    {
        self.thinpool_dstr.as_str()
    }

    /// Extend the thin device's (virtual) size by the number of
    /// sectors given; returns the table that describes the device now.
    pub fn extend(&mut self, sectors: Sectors) -> (table: Vec<TargetLine>)
        requires
            old(self)@.size.0 + sectors.0 <= u64::MAX,
        ensures
            final(self)@ == (ThinDevView {
                size: Sectors((old(self)@.size.0 + sectors.0) as u64),
                ..old(self)@
            }),
            is_thin_table(table@, final(self)@.thinpool_dstr, final(self)@.thin_id@, final(self)@.size),
    {
        self.size = Sectors(self.size.0 + sectors.0);
        ThinDev::dm_table(self.thinpool_dstr.as_str(), self.thin_id, self.size)
    }

    /// Reads the status line of a thin device, as the kernel reports it.
    pub fn parse_status_line(line: &str) -> (r: Result<ThinStatus, ThinStatusError>)
        ensures
            r == status_of_line(line@),
    {
        let fail = "Fail";
        proof {
            reveal_strlit("Fail");
            assert(fail@ =~= fail_prefix());
        }
        if starts_with(line, fail) {
            return Ok(ThinStatus::Fail);
        }
        let vals = split_on(line, ' ');
        if vals.len() < 2 {
            return Err(ThinStatusError::TooFewValues);
        }
        let mapped = match parse_u64(vals[0].as_str()) {
            Some(v) => v,
            None => {
                return Err(ThinStatusError::BadMappedCount);
            },
        };
        let highest = match parse_u64(vals[1].as_str()) {
            Some(v) => v,
            None => {
                return Err(ThinStatusError::BadHighestMapped);
            },
        };
        Ok(ThinStatus::Good((Sectors(mapped), Sectors(highest))))
    }

    /// Reads the status of a thin device from the status table that the kernel
    /// returned for it.
    pub fn parse_status(status: &Vec<TargetLine>) -> (r: Result<ThinStatus, ThinStatusError>)
        ensures
            r == status_of_table(status@),
    {
        if status.len() != 1 {
            return Err(ThinStatusError::LineCount(status.len()));
        }
        ThinDev::parse_status_line(status[0].3.as_str())
    }
}

} // verus!
