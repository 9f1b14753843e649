//! How cards and baseline patterns are stored: each value is written as the
//! bincode encoding (standard configuration) of its fields, in declaration
//! order with each enum as its variant index, then compressed with zstd at
//! level 3.

use vstd::prelude::*;

use crate::error::StoreError;
use crate::types::{
    copy_opt_string, opt_chars, BaselinePattern, BaselinePatternView, CardStatus, Module,
    PatternType, Severity, ThreatCard, ThreatCardView,
};

verus! {

/// The error type of std's I/O, returned by zstd.
#[verifier::external_type_specification]
#[verifier::external_body]
pub struct ExIoError(std::io::Error);

/// The error type of bincode's encoder.
#[verifier::external_type_specification]
#[verifier::external_body]
pub struct ExEncodeError(bincode::error::EncodeError);

/// The error type of bincode's decoder.
#[verifier::external_type_specification]
#[verifier::external_body]
pub struct ExDecodeError(bincode::error::DecodeError);

/// The zstd compression level of stored values.
pub const ZSTD_LEVEL: i32 = 3;

/// The largest encoding of one record that the store writes, in bytes
/// (64 MiB, far beyond any command line the kernel lets a process have).
pub const MAX_RECORD_BYTES: usize = 67108864;

/// The byte limit bincode decodes a record under: the largest record plus
/// room for what the decoder counts for the fixed fields. A length read from
/// the bytes that goes beyond it fails to decode instead of allocating.
pub const DECODE_LIMIT: usize = 67174400;

/// The number of bytes of the UTF-8 encoding of a text.
pub open spec fn text_bytes(s: Seq<char>) -> nat {
    vstd::utf8::encode_utf8(s).len()
}

/// The number of bytes of the UTF-8 encoding of an optional text.
pub open spec fn opt_text_bytes(o: Option<Seq<char>>) -> nat {
    match o {
        Some(s) => text_bytes(s),
        None => 0,
    }
}

/// The bytes of the texts of a card record.
pub open spec fn card_text_bytes(r: CardRecordView) -> nat {
    text_bytes(r.title) + text_bytes(r.description) + opt_text_bytes(r.process_name)
        + opt_text_bytes(r.file_path) + opt_text_bytes(r.command)
}

/// What zstd's `decode_all` makes of `data`: the decompressed bytes, or
/// `None` where `data` is not a valid zstd frame sequence.
pub uninterp spec fn zstd_decompressed(data: Seq<u8>) -> Option<Seq<u8>>;

/// Compress `data` with zstd at `level`.
///
/// Calls `zstd::encode_all`. The contract claims that compressing bytes in
/// memory succeeds (the encoder writes into a `Vec`; short of running out of
/// memory nothing fails) and the lossless round trip that compression is
/// for: the result decompresses back to `data`.
#[verifier::external_body]
pub(crate) fn zstd_compress(data: &[u8], level: i32) -> (res: Result<Vec<u8>, std::io::Error>)
    requires
        1 <= level <= 19,
    ensures
        res is Ok,
        res matches Ok(c) ==> zstd_decompressed(c@) == Some(data@),
{
    zstd::encode_all(data, level)
}

/// Decompress `data` with zstd.
///
/// Calls `zstd::decode_all`. The contract claims that it succeeds exactly
/// when `data` decompresses, with the decompressed bytes.
#[verifier::external_body]
pub(crate) fn zstd_decompress(data: &[u8]) -> (res: Result<Vec<u8>, std::io::Error>)
    ensures
        res is Ok <==> zstd_decompressed(data@) is Some,
        res matches Ok(d) ==> zstd_decompressed(data@) == Some(d@),
{
    zstd::decode_all(data)
}

/// The fields of a threat card as they are encoded: enums by their variant
/// index.
pub struct CardRecord {
    pub id: u64,
    pub timestamp: u64,
    pub module: u32,
    pub severity: u32,
    pub title: String,
    pub description: String,
    pub process_name: Option<String>,
    pub pid: Option<u32>,
    pub file_path: Option<String>,
    pub command: Option<String>,
    pub status: u32,
    pub auto_kill: bool,
}

/// The abstract value of a card record.
pub ghost struct CardRecordView {
    pub id: u64,
    pub timestamp: u64,
    pub module: u32,
    pub severity: u32,
    pub title: Seq<char>,
    pub description: Seq<char>,
    pub process_name: Option<Seq<char>>,
    pub pid: Option<u32>,
    pub file_path: Option<Seq<char>>,
    pub command: Option<Seq<char>>,
    pub status: u32,
    pub auto_kill: bool,
}

impl View for CardRecord {
    type V = CardRecordView;

    open spec fn view(&self) -> CardRecordView {
        CardRecordView {
            id: self.id,
            timestamp: self.timestamp,
            module: self.module,
            severity: self.severity,
            title: self.title@,
            description: self.description@,
            process_name: opt_chars(self.process_name),
            pid: self.pid,
            file_path: opt_chars(self.file_path),
            command: opt_chars(self.command),
            status: self.status,
            auto_kill: self.auto_kill,
        }
    }
}

/// The fields of a baseline pattern as they are encoded.
pub struct PatternRecord {
    pub module: u32,
    pub pattern_type: u32,
    pub value: String,
    pub learned_at: u64,
    pub swipe_count: u32,
}

/// The abstract value of a pattern record.
pub ghost struct PatternRecordView {
    pub module: u32,
    pub pattern_type: u32,
    pub value: Seq<char>,
    pub learned_at: u64,
    pub swipe_count: u32,
}

impl View for PatternRecord {
    type V = PatternRecordView;

    open spec fn view(&self) -> PatternRecordView {
        PatternRecordView {
            module: self.module,
            pattern_type: self.pattern_type,
            value: self.value@,
            learned_at: self.learned_at,
            swipe_count: self.swipe_count,
        }
    }
}

/// What bincode's `decode_from_slice` (standard configuration, limited to
/// `limit` bytes) makes of `bytes` read as the tuple of a card's fields, or
/// `None` where it fails.
pub uninterp spec fn card_record_decoded(bytes: Seq<u8>, limit: nat) -> Option<CardRecordView>;

/// What bincode's `decode_from_slice` (standard configuration, limited to
/// `limit` bytes) makes of `bytes` read as the tuple of a pattern's fields,
/// or `None` where it fails.
pub uninterp spec fn pattern_record_decoded(bytes: Seq<u8>, limit: nat) -> Option<
    PatternRecordView,
>;

/// What bincode's `encode_to_vec` (standard configuration) makes of the
/// tuple of a card record's fields.
pub uninterp spec fn card_record_encoded(r: CardRecordView) -> Seq<u8>;

/// What bincode's `encode_to_vec` (standard configuration) makes of the
/// tuple of a pattern record's fields.
pub uninterp spec fn pattern_record_encoded(r: PatternRecordView) -> Seq<u8>;

/// Encode a card record with bincode.
///
/// Calls `bincode::serde::encode_to_vec` on the tuple of the record's fields
/// with the standard configuration. The contract claims that encoding
/// succeeds (the fields are integers, strings and options, and the bytes go
/// into a `Vec`, whose writer never fails); that the bytes are a function of
/// the record; that they are the texts' UTF-8 bytes plus at most 128 bytes
/// (each integer takes at most nine bytes as a varint, each option tag one);
/// and the round trip that bincode promises: they decode back to the record
/// under any limit of at least their length plus 4096 bytes (the decoder
/// counts a string's bytes and at most eight bytes for each other value it
/// reads).
#[verifier::external_body]
pub(crate) fn bincode_encode_card(r: &CardRecord) -> (res: Result<
    Vec<u8>,
    bincode::error::EncodeError,
>)
    ensures
        res is Ok,
        res matches Ok(b) ==> b@ == card_record_encoded(r@),
        res matches Ok(b) ==> b@.len() <= card_text_bytes(r@) + 128,
        res matches Ok(b) ==> forall|limit: nat|
            b@.len() + 4096 <= limit ==> #[trigger] card_record_decoded(b@, limit) == Some(r@),
{
    let fields = (
        r.id,
        r.timestamp,
        r.module,
        r.severity,
        &r.title,
        &r.description,
        &r.process_name,
        r.pid,
        &r.file_path,
        &r.command,
        r.status,
        r.auto_kill,
    );
    bincode::serde::encode_to_vec(fields, bincode::config::standard())
}

/// Decode a card record with bincode.
///
/// Calls `bincode::serde::decode_from_slice` for the tuple of a card's fields
/// with the standard configuration limited to `LIMIT` bytes (so a length
/// read from the bytes never makes it allocate more), ignoring trailing
/// bytes. The contract claims that it succeeds exactly when the bytes
/// decode under that limit, with that record.
#[verifier::external_body]
pub(crate) fn bincode_decode_card<const LIMIT: usize>(bytes: &[u8]) -> (res: Result<
    CardRecord,
    bincode::error::DecodeError,
>)
    ensures
        res is Ok <==> card_record_decoded(bytes@, LIMIT as nat) is Some,
        res matches Ok(r) ==> card_record_decoded(bytes@, LIMIT as nat) == Some(r@),
{
    let ((id, timestamp, module, severity, title, description, process_name, pid, file_path, command, status, auto_kill), _) =
        bincode::serde::decode_from_slice(bytes, bincode::config::standard().with_limit::<LIMIT>())?;
    Ok(CardRecord { id, timestamp, module, severity, title, description, process_name, pid, file_path, command, status, auto_kill })
}

/// Encode a pattern record with bincode.
///
/// Calls `bincode::serde::encode_to_vec` on the tuple of the record's fields
/// with the standard configuration. The contract claims, as for cards, that
/// encoding succeeds, that the bytes are a function of the record, that they
/// are the value's UTF-8 bytes plus at most 128 bytes, and that they decode
/// back to the record under any limit of at least their length plus 4096
/// bytes.
#[verifier::external_body]
pub(crate) fn bincode_encode_pattern(r: &PatternRecord) -> (res: Result<
    Vec<u8>,
    bincode::error::EncodeError,
>)
    ensures
        res is Ok,
        res matches Ok(b) ==> b@ == pattern_record_encoded(r@),
        res matches Ok(b) ==> b@.len() <= text_bytes(r@.value) + 128,
        res matches Ok(b) ==> forall|limit: nat|
            b@.len() + 4096 <= limit ==> #[trigger] pattern_record_decoded(b@, limit) == Some(r@),
{
    let fields = (r.module, r.pattern_type, &r.value, r.learned_at, r.swipe_count);
    bincode::serde::encode_to_vec(fields, bincode::config::standard())
}

/// Decode a pattern record with bincode.
///
/// Calls `bincode::serde::decode_from_slice` for the tuple of a pattern's
/// fields with the standard configuration limited to `LIMIT` bytes, ignoring
/// trailing bytes. The contract claims that it succeeds exactly when the
/// bytes decode under that limit, with that record.
#[verifier::external_body]
pub(crate) fn bincode_decode_pattern<const LIMIT: usize>(bytes: &[u8]) -> (res: Result<
    PatternRecord,
    bincode::error::DecodeError,
>)
    ensures
        res is Ok <==> pattern_record_decoded(bytes@, LIMIT as nat) is Some,
        res matches Ok(r) ==> pattern_record_decoded(bytes@, LIMIT as nat) == Some(r@),
{
    let ((module, pattern_type, value, learned_at, swipe_count), _) =
        bincode::serde::decode_from_slice(bytes, bincode::config::standard().with_limit::<LIMIT>())?;
    Ok(PatternRecord { module, pattern_type, value, learned_at, swipe_count })
}


/// The variant index of a module.
pub open spec fn module_index(m: Module) -> u32 {
    match m {
        Module::Persistence => 0,
        Module::Network => 1,
        Module::Rootkit => 2,
        Module::Ssh => 3,
        Module::Process => 4,
        Module::Logs => 5,
        Module::Cron => 6,
        Module::Files => 7,
    }
}

/// The module of a variant index, if any.
pub open spec fn module_at(i: u32) -> Option<Module> {
    if i == 0 {
        Some(Module::Persistence)
    } else if i == 1 {
        Some(Module::Network)
    } else if i == 2 {
        Some(Module::Rootkit)
    } else if i == 3 {
        Some(Module::Ssh)
    } else if i == 4 {
        Some(Module::Process)
    } else if i == 5 {
        Some(Module::Logs)
    } else if i == 6 {
        Some(Module::Cron)
    } else if i == 7 {
        Some(Module::Files)
    } else {
        None
    }
}

/// The variant index of a severity.
pub open spec fn severity_index(s: Severity) -> u32 {
    match s {
        Severity::Green => 0,
        Severity::Yellow => 1,
        Severity::Orange => 2,
        Severity::Red => 3,
    }
}

/// The severity of a variant index, if any.
pub open spec fn severity_at(i: u32) -> Option<Severity> {
    if i == 0 {
        Some(Severity::Green)
    } else if i == 1 {
        Some(Severity::Yellow)
    } else if i == 2 {
        Some(Severity::Orange)
    } else if i == 3 {
        Some(Severity::Red)
    } else {
        None
    }
}

/// The variant index of a card status.
pub open spec fn status_index(s: CardStatus) -> u32 {
    match s {
        CardStatus::Pending => 0,
        CardStatus::Baselined => 1,
        CardStatus::Killed => 2,
        CardStatus::Quarantined => 3,
        CardStatus::AutoKilled => 4,
    }
}

/// The card status of a variant index, if any.
pub open spec fn status_at(i: u32) -> Option<CardStatus> {
    if i == 0 {
        Some(CardStatus::Pending)
    } else if i == 1 {
        Some(CardStatus::Baselined)
    } else if i == 2 {
        Some(CardStatus::Killed)
    } else if i == 3 {
        Some(CardStatus::Quarantined)
    } else if i == 4 {
        Some(CardStatus::AutoKilled)
    } else {
        None
    }
}

/// The variant index of a pattern type.
pub open spec fn pattern_type_index(p: PatternType) -> u32 {
    match p {
        PatternType::ProcessName => 0,
        PatternType::ListenPort => 1,
        PatternType::FilePath => 2,
        PatternType::CronPattern => 3,
        PatternType::SshKey => 4,
    }
}

/// The pattern type of a variant index, if any.
pub open spec fn pattern_type_at(i: u32) -> Option<PatternType> {
    if i == 0 {
        Some(PatternType::ProcessName)
    } else if i == 1 {
        Some(PatternType::ListenPort)
    } else if i == 2 {
        Some(PatternType::FilePath)
    } else if i == 3 {
        Some(PatternType::CronPattern)
    } else if i == 4 {
        Some(PatternType::SshKey)
    } else {
        None
    }
}

fn module_to_index(m: Module) -> (i: u32)
    ensures
        i == module_index(m),
{
    match m {
        Module::Persistence => 0,
        Module::Network => 1,
        Module::Rootkit => 2,
        Module::Ssh => 3,
        Module::Process => 4,
        Module::Logs => 5,
        Module::Cron => 6,
        Module::Files => 7,
    }
}

fn module_from_index(i: u32) -> (m: Option<Module>)
    ensures
        m == module_at(i),
{
    if i == 0 {
        Some(Module::Persistence)
    } else if i == 1 {
        Some(Module::Network)
    } else if i == 2 {
        Some(Module::Rootkit)
    } else if i == 3 {
        Some(Module::Ssh)
    } else if i == 4 {
        Some(Module::Process)
    } else if i == 5 {
        Some(Module::Logs)
    } else if i == 6 {
        Some(Module::Cron)
    } else if i == 7 {
        Some(Module::Files)
    } else {
        None
    }
}

fn severity_to_index(s: Severity) -> (i: u32)
    ensures
        i == severity_index(s),
{
    match s {
        Severity::Green => 0,
        Severity::Yellow => 1,
        Severity::Orange => 2,
        Severity::Red => 3,
    }
}

fn severity_from_index(i: u32) -> (s: Option<Severity>)
    ensures
        s == severity_at(i),
{
    if i == 0 {
        Some(Severity::Green)
    } else if i == 1 {
        Some(Severity::Yellow)
    } else if i == 2 {
        Some(Severity::Orange)
    } else if i == 3 {
        Some(Severity::Red)
    } else {
        None
    }
}

fn status_to_index(s: CardStatus) -> (i: u32)
    ensures
        i == status_index(s),
{
    match s {
        CardStatus::Pending => 0,
        CardStatus::Baselined => 1,
        CardStatus::Killed => 2,
        CardStatus::Quarantined => 3,
        CardStatus::AutoKilled => 4,
    }
}

fn status_from_index(i: u32) -> (s: Option<CardStatus>)
    ensures
        s == status_at(i),
{
    if i == 0 {
        Some(CardStatus::Pending)
    } else if i == 1 {
        Some(CardStatus::Baselined)
    } else if i == 2 {
        Some(CardStatus::Killed)
    } else if i == 3 {
        Some(CardStatus::Quarantined)
    } else if i == 4 {
        Some(CardStatus::AutoKilled)
    } else {
        None
    }
}

fn pattern_type_to_index(p: PatternType) -> (i: u32)
    ensures
        i == pattern_type_index(p),
{
    match p {
        PatternType::ProcessName => 0,
        PatternType::ListenPort => 1,
        PatternType::FilePath => 2,
        PatternType::CronPattern => 3,
        PatternType::SshKey => 4,
    }
}

fn pattern_type_from_index(i: u32) -> (p: Option<PatternType>)
    ensures
        p == pattern_type_at(i),
{
    if i == 0 {
        Some(PatternType::ProcessName)
    } else if i == 1 {
        Some(PatternType::ListenPort)
    } else if i == 2 {
        Some(PatternType::FilePath)
    } else if i == 3 {
        Some(PatternType::CronPattern)
    } else if i == 4 {
        Some(PatternType::SshKey)
    } else {
        None
    }
}

/// The record of a card.
pub open spec fn card_record_of(c: ThreatCardView) -> CardRecordView {
    CardRecordView {
        id: c.id,
        timestamp: c.timestamp,
        module: module_index(c.module),
        severity: severity_index(c.severity),
        title: c.title,
        description: c.description,
        process_name: c.process_name,
        pid: c.pid,
        file_path: c.file_path,
        command: c.command,
        status: status_index(c.status),
        auto_kill: c.auto_kill,
    }
}

/// The card of a record, where every variant index names a variant.
pub open spec fn card_of_record(r: CardRecordView) -> Option<ThreatCardView> {
    match (module_at(r.module), severity_at(r.severity), status_at(r.status)) {
        (Some(module), Some(severity), Some(status)) => Some(
            ThreatCardView {
                id: r.id,
                timestamp: r.timestamp,
                module,
                severity,
                title: r.title,
                description: r.description,
                process_name: r.process_name,
                pid: r.pid,
                file_path: r.file_path,
                command: r.command,
                status,
                auto_kill: r.auto_kill,
            },
        ),
        _ => None,
    }
}

/// The record of a pattern.
pub open spec fn pattern_record_of(p: BaselinePatternView) -> PatternRecordView {
    PatternRecordView {
        module: module_index(p.module),
        pattern_type: pattern_type_index(p.pattern_type),
        value: p.value,
        learned_at: p.learned_at,
        swipe_count: p.swipe_count,
    }
}

/// The pattern of a record, where every variant index names a variant.
pub open spec fn pattern_of_record(r: PatternRecordView) -> Option<BaselinePatternView> {
    match (module_at(r.module), pattern_type_at(r.pattern_type)) {
        (Some(module), Some(pattern_type)) => Some(
            BaselinePatternView {
                module,
                pattern_type,
                value: r.value,
                learned_at: r.learned_at,
                swipe_count: r.swipe_count,
            },
        ),
        _ => None,
    }
}

/// The record a card is encoded as.
pub fn card_record(c: &ThreatCard) -> (res: CardRecord)
    ensures
        res@ == card_record_of(c@),
{
    CardRecord {
        id: c.id,
        timestamp: c.timestamp,
        module: module_to_index(c.module),
        severity: severity_to_index(c.severity),
        title: c.title.clone(),
        description: c.description.clone(),
        process_name: copy_opt_string(&c.process_name),
        pid: c.pid,
        file_path: copy_opt_string(&c.file_path),
        command: copy_opt_string(&c.command),
        status: status_to_index(c.status),
        auto_kill: c.auto_kill,
    }
}

/// The card a decoded record stands for; a variant index that names no
/// variant fails to decode.
pub fn card_from_record(r: CardRecord) -> (res: Result<ThreatCard, StoreError>)
    ensures
        match card_of_record(r@) {
            Some(c) => res matches Ok(x) && x@ == c,
            None => res matches Err(e) && e is Decode,
        },
{
    let module = match module_from_index(r.module) {
        Some(m) => m,
        None => return Err(StoreError::Decode),
    };
    let severity = match severity_from_index(r.severity) {
        Some(s) => s,
        None => return Err(StoreError::Decode),
    };
    let status = match status_from_index(r.status) {
        Some(s) => s,
        None => return Err(StoreError::Decode),
    };
    Ok(
        ThreatCard {
            id: r.id,
            timestamp: r.timestamp,
            module,
            severity,
            title: r.title,
            description: r.description,
            process_name: r.process_name,
            pid: r.pid,
            file_path: r.file_path,
            command: r.command,
            status,
            auto_kill: r.auto_kill,
        },
    )
}

/// The record a baseline pattern is encoded as.
pub fn pattern_record(p: &BaselinePattern) -> (res: PatternRecord)
    ensures
        res@ == pattern_record_of(p@),
{
    PatternRecord {
        module: module_to_index(p.module),
        pattern_type: pattern_type_to_index(p.pattern_type),
        value: p.value.clone(),
        learned_at: p.learned_at,
        swipe_count: p.swipe_count,
    }
}

/// The baseline pattern a decoded record stands for; a variant index that
/// names no variant fails to decode.
pub fn pattern_from_record(r: PatternRecord) -> (res: Result<BaselinePattern, StoreError>)
    ensures
        match pattern_of_record(r@) {
            Some(p) => res matches Ok(x) && x@ == p,
            None => res matches Err(e) && e is Decode,
        },
{
    let module = match module_from_index(r.module) {
        Some(m) => m,
        None => return Err(StoreError::Decode),
    };
    let pattern_type = match pattern_type_from_index(r.pattern_type) {
        Some(p) => p,
        None => return Err(StoreError::Decode),
    };
    Ok(
        BaselinePattern {
            module,
            pattern_type,
            value: r.value,
            learned_at: r.learned_at,
            swipe_count: r.swipe_count,
        },
    )
}

/// A value that the store keeps, encoded to bytes and decoded back.
pub trait Record: Sized + View {
    /// What the stored bytes decode to, if they decode.
    spec fn stored_as(bytes: Seq<u8>) -> Option<Self::V>;

    /// Whether the value's encoding is small enough to store.
    spec fn fits(v: Self::V) -> bool;

    /// Whether the value's texts are small enough that its encoding surely
    /// fits.
    spec fn bounded(v: Self::V) -> bool;

    /// The bytes to store for this value: encoding succeeds exactly when the
    /// value fits, and surely when its texts are bounded.
    fn encode(&self) -> (res: Result<Vec<u8>, StoreError>)
        ensures
            res is Ok <==> Self::fits(self@),
            Self::bounded(self@) ==> res is Ok,
            res matches Ok(b) ==> Self::stored_as(b@) == Some(self@),
            res matches Err(e) ==> e is Encode,
    ;

    /// The value that stored bytes decode to.
    fn decode(bytes: &[u8]) -> (res: Result<Self, StoreError>)
        ensures
            match Self::stored_as(bytes@) {
                Some(v) => res matches Ok(x) && x@ == v,
                None => res matches Err(e) && (e is Decompress || e is Decode),
            },
    ;
}

impl Record for ThreatCard {
    open spec fn stored_as(bytes: Seq<u8>) -> Option<ThreatCardView> {
        match zstd_decompressed(bytes) {
            Some(raw) => match card_record_decoded(raw, DECODE_LIMIT as nat) {
                Some(r) => card_of_record(r),
                None => None,
            },
            None => None,
        }
    }

    open spec fn fits(v: ThreatCardView) -> bool {
        card_record_encoded(card_record_of(v)).len() <= MAX_RECORD_BYTES
    }

    open spec fn bounded(v: ThreatCardView) -> bool {
        card_text_bytes(card_record_of(v)) + 128 <= MAX_RECORD_BYTES
    }

    fn encode(&self) -> (res: Result<Vec<u8>, StoreError>) {
        let record = card_record(self);
        let raw = match bincode_encode_card(&record) {
            Ok(b) => b,
            Err(_) => return Err(StoreError::Encode),
        };
        if raw.len() > MAX_RECORD_BYTES {
            return Err(StoreError::Encode);
        }
        match zstd_compress(raw.as_slice(), ZSTD_LEVEL) {
            Ok(c) => {
                assert(card_of_record(record@) == Some(self@));
                Ok(c)
            },
            Err(_) => Err(StoreError::Encode),
        }
    }

    fn decode(bytes: &[u8]) -> (res: Result<ThreatCard, StoreError>) {
        let raw = match zstd_decompress(bytes) {
            Ok(d) => d,
            Err(_) => return Err(StoreError::Decompress),
        };
        match bincode_decode_card::<DECODE_LIMIT>(raw.as_slice()) {
            Ok(r) => card_from_record(r),
            Err(_) => Err(StoreError::Decode),
        }
    }
}

impl Record for BaselinePattern {
    open spec fn stored_as(bytes: Seq<u8>) -> Option<BaselinePatternView> {
        match zstd_decompressed(bytes) {
            Some(raw) => match pattern_record_decoded(raw, DECODE_LIMIT as nat) {
                Some(r) => pattern_of_record(r),
                None => None,
            },
            None => None,
        }
    }

    open spec fn fits(v: BaselinePatternView) -> bool {
        pattern_record_encoded(pattern_record_of(v)).len() <= MAX_RECORD_BYTES
    }

    open spec fn bounded(v: BaselinePatternView) -> bool {
        text_bytes(v.value) + 128 <= MAX_RECORD_BYTES
    }

    fn encode(&self) -> (res: Result<Vec<u8>, StoreError>) {
        let record = pattern_record(self);
        let raw = match bincode_encode_pattern(&record) {
            Ok(b) => b,
            Err(_) => return Err(StoreError::Encode),
        };
        if raw.len() > MAX_RECORD_BYTES {
            return Err(StoreError::Encode);
        }
        match zstd_compress(raw.as_slice(), ZSTD_LEVEL) {
            Ok(c) => {
                assert(pattern_of_record(record@) == Some(self@));
                Ok(c)
            },
            Err(_) => Err(StoreError::Encode),
        }
    }

    fn decode(bytes: &[u8]) -> (res: Result<BaselinePattern, StoreError>) {
        let raw = match zstd_decompress(bytes) {
            Ok(d) => d,
            Err(_) => return Err(StoreError::Decompress),
        };
        match bincode_decode_pattern::<DECODE_LIMIT>(raw.as_slice()) {
            Ok(r) => pattern_from_record(r),
            Err(_) => Err(StoreError::Decode),
        }
    }
}

} // verus!
