//! Reading a server's answer token by token.

use crate::datatypes::column_values::Value;
use crate::datatypes::decoder::GenericDecoder;
use crate::datatypes::metadata::ColumnMetadata;
use crate::datatypes::row_writer::{
    accepts_all, lemma_wrote_all_push, wrote_all, DefaultRowWriter, RowWriter,
};
use crate::datatypes::sync_decoder::{bitmap_len, is_null_bit, null_bit, null_bitmap_len};
use crate::datatypes::wire::{column_value, decodable, law_value_end};
use crate::error::{Error, ErrorKind, TdsResult};
use crate::io::packet_reader::{get_byte, get_bytes, ByteReader};
use crate::text::number_message;
use crate::token::{ColMetadataToken, TokenType, Tokens};
use std::collections::HashMap;
use vstd::prelude::*;
use vstd::string::StringExecFns;

verus! {

broadcast use crate::io::packet_reader::lemma_reader_position;

/// The parser of tokens of this type.
#[derive(Clone, Copy, Debug, PartialEq, Eq, Structural)]
pub struct EnvChangeTokenParser {}

impl Default for EnvChangeTokenParser {
    fn default() -> (p: EnvChangeTokenParser)
        ensures
            p == (EnvChangeTokenParser {}),
    {
        EnvChangeTokenParser {}
    }
}

/// The parser of tokens of this type.
#[derive(Clone, Copy, Debug, PartialEq, Eq, Structural)]
pub struct LoginAckTokenParser {}

impl Default for LoginAckTokenParser {
    fn default() -> (p: LoginAckTokenParser)
        ensures
            p == (LoginAckTokenParser {}),
    {
        LoginAckTokenParser {}
    }
}

/// The parser of tokens of this type.
#[derive(Clone, Copy, Debug, PartialEq, Eq, Structural)]
pub struct DoneTokenParser {}

impl Default for DoneTokenParser {
    fn default() -> (p: DoneTokenParser)
        ensures
            p == (DoneTokenParser {}),
    {
        DoneTokenParser {}
    }
}

/// The parser of tokens of this type.
#[derive(Clone, Copy, Debug, PartialEq, Eq, Structural)]
pub struct DoneInProcTokenParser {}

impl Default for DoneInProcTokenParser {
    fn default() -> (p: DoneInProcTokenParser)
        ensures
            p == (DoneInProcTokenParser {}),
    {
        DoneInProcTokenParser {}
    }
}

/// The parser of tokens of this type.
#[derive(Clone, Copy, Debug, PartialEq, Eq, Structural)]
pub struct DoneProcTokenParser {}

impl Default for DoneProcTokenParser {
    fn default() -> (p: DoneProcTokenParser)
        ensures
            p == (DoneProcTokenParser {}),
    {
        DoneProcTokenParser {}
    }
}

/// The parser of tokens of this type.
#[derive(Clone, Copy, Debug, PartialEq, Eq, Structural)]
pub struct InfoTokenParser {}

impl Default for InfoTokenParser {
    fn default() -> (p: InfoTokenParser)
        ensures
            p == (InfoTokenParser {}),
    {
        InfoTokenParser {}
    }
}

/// The parser of tokens of this type.
#[derive(Clone, Copy, Debug, PartialEq, Eq, Structural)]
pub struct ErrorTokenParser {}

impl Default for ErrorTokenParser {
    fn default() -> (p: ErrorTokenParser)
        ensures
            p == (ErrorTokenParser {}),
    {
        ErrorTokenParser {}
    }
}

/// The parser of tokens of this type.
#[derive(Clone, Copy, Debug, PartialEq, Eq, Structural)]
pub struct FedAuthInfoTokenParser {}

impl Default for FedAuthInfoTokenParser {
    fn default() -> (p: FedAuthInfoTokenParser)
        ensures
            p == (FedAuthInfoTokenParser {}),
    {
        FedAuthInfoTokenParser {}
    }
}

/// The parser of tokens of this type.
#[derive(Clone, Copy, Debug, PartialEq, Eq, Structural)]
pub struct FeatureExtAckTokenParser {}

impl Default for FeatureExtAckTokenParser {
    fn default() -> (p: FeatureExtAckTokenParser)
        ensures
            p == (FeatureExtAckTokenParser {}),
    {
        FeatureExtAckTokenParser {}
    }
}

/// The parser of tokens of this type.
#[derive(Clone, Copy, Debug, PartialEq, Eq, Structural)]
pub struct ColMetadataTokenParser {}

impl Default for ColMetadataTokenParser {
    fn default() -> (p: ColMetadataTokenParser)
        ensures
            p == (ColMetadataTokenParser {}),
    {
        ColMetadataTokenParser {}
    }
}

/// The parser of tokens of this type.
#[derive(Clone, Copy, Debug, PartialEq, Eq, Structural)]
pub struct RowTokenParser {}

impl Default for RowTokenParser {
    fn default() -> (p: RowTokenParser)
        ensures
            p == (RowTokenParser {}),
    {
        RowTokenParser {}
    }
}

/// The parser of tokens of this type.
#[derive(Clone, Copy, Debug, PartialEq, Eq, Structural)]
pub struct OrderTokenParser {}

impl Default for OrderTokenParser {
    fn default() -> (p: OrderTokenParser)
        ensures
            p == (OrderTokenParser {}),
    {
        OrderTokenParser {}
    }
}

/// The parser of tokens of this type.
#[derive(Clone, Copy, Debug, PartialEq, Eq, Structural)]
pub struct ReturnStatusTokenParser {}

impl Default for ReturnStatusTokenParser {
    fn default() -> (p: ReturnStatusTokenParser)
        ensures
            p == (ReturnStatusTokenParser {}),
    {
        ReturnStatusTokenParser {}
    }
}

/// The parser of tokens of this type.
#[derive(Clone, Copy, Debug, PartialEq, Eq, Structural)]
pub struct NbcRowTokenParser {}

impl Default for NbcRowTokenParser {
    fn default() -> (p: NbcRowTokenParser)
        ensures
            p == (NbcRowTokenParser {}),
    {
        NbcRowTokenParser {}
    }
}

/// The parser of tokens of this type.
#[derive(Clone, Copy, Debug, PartialEq, Eq, Structural)]
pub struct ReturnValueTokenParser {}

impl Default for ReturnValueTokenParser {
    fn default() -> (p: ReturnValueTokenParser)
        ensures
            p == (ReturnValueTokenParser {}),
    {
        ReturnValueTokenParser {}
    }
}

/// The parser of tokens of this type.
#[derive(Clone, Copy, Debug, PartialEq, Eq, Structural)]
pub struct SspiTokenParser {}

impl Default for SspiTokenParser {
    fn default() -> (p: SspiTokenParser)
        ensures
            p == (SspiTokenParser {}),
    {
        SspiTokenParser {}
    }
}

/// The parsers of all tokens.
#[derive(Clone, Copy, Debug, PartialEq, Eq, Structural)]
pub enum TokenParsers {
    EnvChange(EnvChangeTokenParser),
    LoginAck(LoginAckTokenParser),
    Done(DoneTokenParser),
    DoneInProc(DoneInProcTokenParser),
    DoneProc(DoneProcTokenParser),
    Info(InfoTokenParser),
    Error(ErrorTokenParser),
    FedAuthInfo(FedAuthInfoTokenParser),
    FeatureExtAck(FeatureExtAckTokenParser),
    ColMetadata(ColMetadataTokenParser),
    Row(RowTokenParser),
    Order(OrderTokenParser),
    ReturnStatus(ReturnStatusTokenParser),
    NbcRow(NbcRowTokenParser),
    ReturnValue(ReturnValueTokenParser),
    Sspi(SspiTokenParser),
}

impl From<EnvChangeTokenParser> for TokenParsers {
    fn from(parser: EnvChangeTokenParser) -> (p: TokenParsers) {
        TokenParsers::EnvChange(parser)
    }
}

impl vstd::std_specs::convert::FromSpecImpl<EnvChangeTokenParser> for TokenParsers {
    open spec fn obeys_from_spec() -> bool {
        true
    }

    open spec fn from_spec(parser: EnvChangeTokenParser) -> TokenParsers {
        TokenParsers::EnvChange(parser)
    }
}

impl From<LoginAckTokenParser> for TokenParsers {
    fn from(parser: LoginAckTokenParser) -> (p: TokenParsers) {
        TokenParsers::LoginAck(parser)
    }
}

impl vstd::std_specs::convert::FromSpecImpl<LoginAckTokenParser> for TokenParsers {
    open spec fn obeys_from_spec() -> bool {
        true
    }

    open spec fn from_spec(parser: LoginAckTokenParser) -> TokenParsers {
        TokenParsers::LoginAck(parser)
    }
}

impl From<DoneTokenParser> for TokenParsers {
    fn from(parser: DoneTokenParser) -> (p: TokenParsers) {
        TokenParsers::Done(parser)
    }
}

impl vstd::std_specs::convert::FromSpecImpl<DoneTokenParser> for TokenParsers {
    open spec fn obeys_from_spec() -> bool {
        true
    }

    open spec fn from_spec(parser: DoneTokenParser) -> TokenParsers {
        TokenParsers::Done(parser)
    }
}

impl From<DoneInProcTokenParser> for TokenParsers {
    fn from(parser: DoneInProcTokenParser) -> (p: TokenParsers) {
        TokenParsers::DoneInProc(parser)
    }
}

impl vstd::std_specs::convert::FromSpecImpl<DoneInProcTokenParser> for TokenParsers {
    open spec fn obeys_from_spec() -> bool {
        true
    }

    open spec fn from_spec(parser: DoneInProcTokenParser) -> TokenParsers {
        TokenParsers::DoneInProc(parser)
    }
}

impl From<DoneProcTokenParser> for TokenParsers {
    fn from(parser: DoneProcTokenParser) -> (p: TokenParsers) {
        TokenParsers::DoneProc(parser)
    }
}

impl vstd::std_specs::convert::FromSpecImpl<DoneProcTokenParser> for TokenParsers {
    open spec fn obeys_from_spec() -> bool {
        true
    }

    open spec fn from_spec(parser: DoneProcTokenParser) -> TokenParsers {
        TokenParsers::DoneProc(parser)
    }
}

impl From<InfoTokenParser> for TokenParsers {
    fn from(parser: InfoTokenParser) -> (p: TokenParsers) {
        TokenParsers::Info(parser)
    }
}

impl vstd::std_specs::convert::FromSpecImpl<InfoTokenParser> for TokenParsers {
    open spec fn obeys_from_spec() -> bool {
        true
    }

    open spec fn from_spec(parser: InfoTokenParser) -> TokenParsers {
        TokenParsers::Info(parser)
    }
}

impl From<ErrorTokenParser> for TokenParsers {
    fn from(parser: ErrorTokenParser) -> (p: TokenParsers) {
        TokenParsers::Error(parser)
    }
}

impl vstd::std_specs::convert::FromSpecImpl<ErrorTokenParser> for TokenParsers {
    open spec fn obeys_from_spec() -> bool {
        true
    }

    open spec fn from_spec(parser: ErrorTokenParser) -> TokenParsers {
        TokenParsers::Error(parser)
    }
}

impl From<FedAuthInfoTokenParser> for TokenParsers {
    fn from(parser: FedAuthInfoTokenParser) -> (p: TokenParsers) {
        TokenParsers::FedAuthInfo(parser)
    }
}

impl vstd::std_specs::convert::FromSpecImpl<FedAuthInfoTokenParser> for TokenParsers {
    open spec fn obeys_from_spec() -> bool {
        true
    }

    open spec fn from_spec(parser: FedAuthInfoTokenParser) -> TokenParsers {
        TokenParsers::FedAuthInfo(parser)
    }
}

impl From<FeatureExtAckTokenParser> for TokenParsers {
    fn from(parser: FeatureExtAckTokenParser) -> (p: TokenParsers) {
        TokenParsers::FeatureExtAck(parser)
    }
}

impl vstd::std_specs::convert::FromSpecImpl<FeatureExtAckTokenParser> for TokenParsers {
    open spec fn obeys_from_spec() -> bool {
        true
    }

    open spec fn from_spec(parser: FeatureExtAckTokenParser) -> TokenParsers {
        TokenParsers::FeatureExtAck(parser)
    }
}

impl From<ColMetadataTokenParser> for TokenParsers {
    fn from(parser: ColMetadataTokenParser) -> (p: TokenParsers) {
        TokenParsers::ColMetadata(parser)
    }
}

impl vstd::std_specs::convert::FromSpecImpl<ColMetadataTokenParser> for TokenParsers {
    open spec fn obeys_from_spec() -> bool {
        true
    }

    open spec fn from_spec(parser: ColMetadataTokenParser) -> TokenParsers {
        TokenParsers::ColMetadata(parser)
    }
}

impl From<RowTokenParser> for TokenParsers {
    fn from(parser: RowTokenParser) -> (p: TokenParsers) {
        TokenParsers::Row(parser)
    }
}

impl vstd::std_specs::convert::FromSpecImpl<RowTokenParser> for TokenParsers {
    open spec fn obeys_from_spec() -> bool {
        true
    }

    open spec fn from_spec(parser: RowTokenParser) -> TokenParsers {
        TokenParsers::Row(parser)
    }
}

impl From<OrderTokenParser> for TokenParsers {
    fn from(parser: OrderTokenParser) -> (p: TokenParsers) {
        TokenParsers::Order(parser)
    }
}

impl vstd::std_specs::convert::FromSpecImpl<OrderTokenParser> for TokenParsers {
    open spec fn obeys_from_spec() -> bool {
        true
    }

    open spec fn from_spec(parser: OrderTokenParser) -> TokenParsers {
        TokenParsers::Order(parser)
    }
}

impl From<ReturnStatusTokenParser> for TokenParsers {
    fn from(parser: ReturnStatusTokenParser) -> (p: TokenParsers) {
        TokenParsers::ReturnStatus(parser)
    }
}

impl vstd::std_specs::convert::FromSpecImpl<ReturnStatusTokenParser> for TokenParsers {
    open spec fn obeys_from_spec() -> bool {
        true
    }

    open spec fn from_spec(parser: ReturnStatusTokenParser) -> TokenParsers {
        TokenParsers::ReturnStatus(parser)
    }
}

impl From<NbcRowTokenParser> for TokenParsers {
    fn from(parser: NbcRowTokenParser) -> (p: TokenParsers) {
        TokenParsers::NbcRow(parser)
    }
}

impl vstd::std_specs::convert::FromSpecImpl<NbcRowTokenParser> for TokenParsers {
    open spec fn obeys_from_spec() -> bool {
        true
    }

    open spec fn from_spec(parser: NbcRowTokenParser) -> TokenParsers {
        TokenParsers::NbcRow(parser)
    }
}

impl From<ReturnValueTokenParser> for TokenParsers {
    fn from(parser: ReturnValueTokenParser) -> (p: TokenParsers) {
        TokenParsers::ReturnValue(parser)
    }
}

impl vstd::std_specs::convert::FromSpecImpl<ReturnValueTokenParser> for TokenParsers {
    open spec fn obeys_from_spec() -> bool {
        true
    }

    open spec fn from_spec(parser: ReturnValueTokenParser) -> TokenParsers {
        TokenParsers::ReturnValue(parser)
    }
}

impl From<SspiTokenParser> for TokenParsers {
    fn from(parser: SspiTokenParser) -> (p: TokenParsers) {
        TokenParsers::Sspi(parser)
    }
}

impl vstd::std_specs::convert::FromSpecImpl<SspiTokenParser> for TokenParsers {
    open spec fn obeys_from_spec() -> bool {
        true
    }

    open spec fn from_spec(parser: SspiTokenParser) -> TokenParsers {
        TokenParsers::Sspi(parser)
    }
}

/// The parser of a type of tokens, for the types that have one.
pub open spec fn parser_of(t: TokenType) -> Option<TokenParsers> {
    match t {
        TokenType::EnvChange => Some(TokenParsers::EnvChange(EnvChangeTokenParser {})),
        TokenType::LoginAck => Some(TokenParsers::LoginAck(LoginAckTokenParser {})),
        TokenType::Done => Some(TokenParsers::Done(DoneTokenParser {})),
        TokenType::DoneInProc => Some(TokenParsers::DoneInProc(DoneInProcTokenParser {})),
        TokenType::DoneProc => Some(TokenParsers::DoneProc(DoneProcTokenParser {})),
        TokenType::Info => Some(TokenParsers::Info(InfoTokenParser {})),
        TokenType::Error => Some(TokenParsers::Error(ErrorTokenParser {})),
        TokenType::FedAuthInfo => Some(TokenParsers::FedAuthInfo(FedAuthInfoTokenParser {})),
        TokenType::FeatureExtAck => Some(TokenParsers::FeatureExtAck(FeatureExtAckTokenParser {})),
        TokenType::ColMetadata => Some(TokenParsers::ColMetadata(ColMetadataTokenParser {})),
        TokenType::Row => Some(TokenParsers::Row(RowTokenParser {})),
        TokenType::Order => Some(TokenParsers::Order(OrderTokenParser {})),
        TokenType::ReturnStatus => Some(TokenParsers::ReturnStatus(ReturnStatusTokenParser {})),
        TokenType::NbcRow => Some(TokenParsers::NbcRow(NbcRowTokenParser {})),
        TokenType::ReturnValue => Some(TokenParsers::ReturnValue(ReturnValueTokenParser {})),
        TokenType::SSPI => Some(TokenParsers::Sspi(SspiTokenParser {})),
        _ => None,
    }
}

/// Which parser reads which type of tokens.
pub trait TokenParserRegistry {
    /// The parser of a type of tokens, where there is one.
    spec fn parser(&self, token_type: TokenType) -> Option<TokenParsers>;

    /// Whether a type of tokens has a parser.
    fn has_parser(&self, token_type: &TokenType) -> (b: bool)
        ensures
            b == (self.parser(*token_type) is Some),
    ;

    /// The parser of a type of tokens, where there is one.
    fn get_parser(&self, token_type: &TokenType) -> (p: Option<&TokenParsers>)
        ensures
            match p {
                Some(p) => self.parser(*token_type) == Some(*p),
                None => self.parser(*token_type) is None,
            },
    ;
}

/// The parsers of the protocol.
pub struct GenericTokenParserRegistry {
    parsers: HashMap<u8, TokenParsers>,
}

impl GenericTokenParserRegistry {
    /// Each type of tokens has its own parser, found by the type's byte.
    #[verifier::type_invariant]
    spec fn complete(self) -> bool {
        forall|t: TokenType|
            match parser_of(t) {
                Some(p) => self.parsers@.contains_key(#[trigger] t.code()) && self.parsers@[t.code()]
                    == p,
                None => !self.parsers@.contains_key(t.code()),
            }
    }
}

impl Default for GenericTokenParserRegistry {
    fn default() -> (r: GenericTokenParserRegistry) {
        broadcast use vstd::std_specs::hash::group_hash_axioms;

        let mut parsers: HashMap<u8, TokenParsers> = HashMap::new();
        parsers.insert(TokenType::EnvChange.code(), TokenParsers::from(EnvChangeTokenParser {}));
        parsers.insert(TokenType::LoginAck.code(), TokenParsers::from(LoginAckTokenParser {}));
        parsers.insert(TokenType::Done.code(), TokenParsers::from(DoneTokenParser {}));
        parsers.insert(TokenType::DoneInProc.code(), TokenParsers::from(DoneInProcTokenParser {}));
        parsers.insert(TokenType::DoneProc.code(), TokenParsers::from(DoneProcTokenParser {}));
        parsers.insert(TokenType::Info.code(), TokenParsers::from(InfoTokenParser {}));
        parsers.insert(TokenType::Error.code(), TokenParsers::from(ErrorTokenParser {}));
        parsers.insert(TokenType::FedAuthInfo.code(), TokenParsers::from(FedAuthInfoTokenParser {}));
        parsers.insert(TokenType::FeatureExtAck.code(), TokenParsers::from(FeatureExtAckTokenParser {}));
        parsers.insert(TokenType::ColMetadata.code(), TokenParsers::from(ColMetadataTokenParser {}));
        parsers.insert(TokenType::Row.code(), TokenParsers::from(RowTokenParser {}));
        parsers.insert(TokenType::Order.code(), TokenParsers::from(OrderTokenParser {}));
        parsers.insert(TokenType::ReturnStatus.code(), TokenParsers::from(ReturnStatusTokenParser {}));
        parsers.insert(TokenType::NbcRow.code(), TokenParsers::from(NbcRowTokenParser {}));
        parsers.insert(TokenType::ReturnValue.code(), TokenParsers::from(ReturnValueTokenParser {}));
        parsers.insert(TokenType::SSPI.code(), TokenParsers::from(SspiTokenParser {}));
        GenericTokenParserRegistry { parsers }
    }
}

impl TokenParserRegistry for GenericTokenParserRegistry {
    open spec fn parser(&self, token_type: TokenType) -> Option<TokenParsers> {
        parser_of(token_type)
    }

    fn has_parser(&self, token_type: &TokenType) -> (b: bool) {
        broadcast use vstd::std_specs::hash::group_hash_axioms;

        proof {
            use_type_invariant(self);
        }
        let code: u8 = token_type.code();
        self.parsers.contains_key(&code)
    }

    fn get_parser(&self, token_type: &TokenType) -> (p: Option<&TokenParsers>) {
        broadcast use vstd::std_specs::hash::group_hash_axioms;

        proof {
            use_type_invariant(self);
        }
        let code: u8 = token_type.code();
        self.parsers.get(&code)
    }
}

/// What parsers know beside the bytes that they read: the columns of the rows.
#[derive(Debug)]
pub enum ParserContext {
    ColumnMetadata(ColMetadataToken),
    Empty(()),
}

impl Default for ParserContext {
    fn default() -> (c: ParserContext)
        ensures
            c == ParserContext::Empty(()),
    {
        ParserContext::Empty(())
    }
}

/// What was read: a row, which went into a sink, or another token.
#[derive(Debug)]
pub enum RowReadResult {
    RowWritten,
    Token(Tokens),
}

/// What came next: a row, which went into a sink, or a token that is left to its parser.
#[derive(Clone, Copy, Debug, PartialEq, Eq, Structural)]
pub enum NextToken {
    RowWritten,
    Parse(TokenParsers),
}

/// The value of a column, as it is handed to a sink.
#[verifier::opaque]
pub open spec fn cell_at(m: &ColumnMetadata, d: Seq<u8>, p: int) -> Result<(Value, int), ErrorKind> {
    column_value(m, d, p)
}

/// The first `n` columns of a row at position `p`: the values that are written, and the position after
/// them or the error. Columns that the bitmap marks are missing and take no bytes.
pub open spec fn row_cells(
    cols: Seq<ColumnMetadata>,
    n: nat,
    bitmap: Option<Seq<u8>>,
    d: Seq<u8>,
    p: int,
) -> (Seq<(usize, Value)>, Result<int, ErrorKind>)
    decreases n,
{
    if n == 0 {
        (Seq::empty(), Ok(p))
    } else {
        let (cells, at) = row_cells(cols, (n - 1) as nat, bitmap, d, p);
        match at {
            Err(k) => (cells, Err(k)),
            Ok(q) => if bitmap matches Some(b) && null_bit(b, n - 1) {
                (cells.push(((n - 1) as usize, Value::Null)), Ok(q))
            } else {
                match cell_at(&cols[n - 1], d, q) {
                    Ok((v, r)) => (cells.push(((n - 1) as usize, v)), Ok(r)),
                    Err(k) => (cells, Err(k)),
                }
            },
        }
    }
}

/// Whether no column of a row at position `p` is a variant that has no meaning.
pub open spec fn row_decodable(
    cols: Seq<ColumnMetadata>,
    bitmap: Option<Seq<u8>>,
    d: Seq<u8>,
    p: int,
) -> bool {
    forall|i: int|
        #![trigger cols[i]]
        0 <= i < cols.len() && !(bitmap matches Some(b) && null_bit(b, i)) ==> (row_cells(
            cols,
            i as nat,
            bitmap,
            d,
            p,
        ).1 matches Ok(q) ==> decodable(&cols[i], d, q))
}

/// Later columns only add to what the earlier ones gave, and add nothing after an error.
pub proof fn lemma_row_cells_grow(
    cols: Seq<ColumnMetadata>,
    m: nat,
    n: nat,
    bitmap: Option<Seq<u8>>,
    d: Seq<u8>,
    p: int,
)
    requires
        m <= n,
    ensures
        row_cells(cols, m, bitmap, d, p).0.is_prefix_of(row_cells(cols, n, bitmap, d, p).0),
        row_cells(cols, m, bitmap, d, p).1 is Err ==> row_cells(cols, n, bitmap, d, p)
            == row_cells(cols, m, bitmap, d, p),
    decreases n - m,
{
    if m < n {
        lemma_row_cells_grow(cols, m, (n - 1) as nat, bitmap, d, p);
    }
}

/// A row at position `p`, whose type byte was read: the values that are written, and the position
/// after them or the error. Rows of the compact kind start with a bitmap of their missing values.
pub open spec fn row_at(cols: Seq<ColumnMetadata>, compact: bool, d: Seq<u8>, p: int) -> (
    Seq<(usize, Value)>,
    Result<int, ErrorKind>,
) {
    if compact {
        match get_bytes(d, p, bitmap_len(cols.len())) {
            Ok((b, q)) => row_cells(cols, cols.len(), Some(b), d, q),
            Err(k) => (Seq::empty(), Err(k)),
        }
    } else {
        row_cells(cols, cols.len(), None, d, p)
    }
}

/// Whether a row can be decoded into a sink.
pub open spec fn row_fits<W: RowWriter>(
    cols: Seq<ColumnMetadata>,
    compact: bool,
    d: Seq<u8>,
    p: int,
    writer: W,
) -> bool {
    &&& accepts_all(writer, row_at(cols, compact, d, p).0)
    &&& if compact {
        get_bytes(d, p, bitmap_len(cols.len())) matches Ok((b, q)) ==> row_decodable(
            cols,
            Some(b),
            d,
            q,
        )
    } else {
        row_decodable(cols, None, d, p)
    }
}

/// The columns of a context, where it has some.
pub open spec fn columns_of(context: &ParserContext) -> Option<Seq<ColumnMetadata>> {
    match context {
        ParserContext::ColumnMetadata(m) => Some(m.columns@),
        ParserContext::Empty(_) => None,
    }
}

/// Whether the token at position `p` can be read into a sink where it is a row.
pub open spec fn next_fits<W: RowWriter>(
    columns: Option<Seq<ColumnMetadata>>,
    d: Seq<u8>,
    p: int,
    writer: W,
) -> bool {
    get_byte(d, p) matches Ok((code, q)) ==> (columns matches Some(cols) ==> (TokenType::of_code(
        code,
    ) matches Some(t) ==> {
        &&& t == TokenType::Row ==> row_fits(cols, false, d, q, writer)
        &&& t == TokenType::NbcRow ==> row_fits(cols, true, d, q, writer)
    }))
}

/// Whether the token at position `p` has no column without meaning where it is a row.
pub open spec fn next_decodable(columns: Option<Seq<ColumnMetadata>>, d: Seq<u8>, p: int) -> bool {
    get_byte(d, p) matches Ok((code, q)) ==> (columns matches Some(cols) ==> (TokenType::of_code(
        code,
    ) matches Some(t) ==> {
        &&& t == TokenType::Row ==> row_decodable(cols, None, d, q)
        &&& t == TokenType::NbcRow ==> (get_bytes(d, q, bitmap_len(cols.len())) matches Ok((b, x))
            ==> row_decodable(cols, Some(b), d, x))
    }))
}

/// A token can be read into a sink that takes every value where no column is without meaning.
pub proof fn law_decodable_fits<W: RowWriter>(
    columns: Option<Seq<ColumnMetadata>>,
    d: Seq<u8>,
    p: int,
    writer: W,
)
    requires
        forall|c: usize, v: Value| #[trigger] writer.accepts(c, v),
    ensures
        next_decodable(columns, d, p) == next_fits(columns, d, p, writer),
{
}

/// What reading the token at position `p` makes of a sink, gives, and where it ends. A row goes into
/// the sink; of another token the type is read, and its parser is given.
pub open spec fn received<R: TokenParserRegistry, W: RowWriter>(
    registry: &R,
    columns: Option<Seq<ColumnMetadata>>,
    d: Seq<u8>,
    p: int,
    pre: W,
    post: W,
    r: TdsResult<NextToken>,
    end: int,
) -> bool {
    match get_byte(d, p) {
        Err(k) => (r matches Err(e) && e.kind() == k) && post == pre,
        Ok((code, q)) => match TokenType::of_code(code) {
            None => (r matches Err(e) && e.kind() == ErrorKind::Protocol) && post == pre,
            Some(t) => if t == TokenType::Row || t == TokenType::NbcRow {
                match columns {
                    None => (r matches Err(e) && e.kind() == ErrorKind::Protocol) && post == pre,
                    Some(cols) => {
                        let (cells, at) = row_at(cols, t == TokenType::NbcRow, d, q);
                        &&& wrote_all(pre, post, cells)
                        &&& match at {
                            Ok(x) => r == Ok::<NextToken, Error>(NextToken::RowWritten) && end == x,
                            Err(k) => r matches Err(e) && e.kind() == k,
                        }
                    },
                }
            } else {
                &&& post == pre
                &&& match registry.parser(t) {
                    Some(x) => r == Ok::<NextToken, Error>(NextToken::Parse(x)) && end == q,
                    None => r matches Err(e) && e.kind() == ErrorKind::Protocol,
                }
            },
        },
    }
}

/// The row at position `p` where there is one: its values, and the position after it.
pub open spec fn next_row(columns: Option<Seq<ColumnMetadata>>, d: Seq<u8>, p: int) -> Option<
    (Seq<(usize, Value)>, int),
> {
    match (columns, get_byte(d, p)) {
        (Some(cols), Ok((code, q))) => match TokenType::of_code(code) {
            Some(t) => if t == TokenType::Row || t == TokenType::NbcRow {
                let (cells, at) = row_at(cols, t == TokenType::NbcRow, d, q);
                match at {
                    Ok(x) => Some((cells, x)),
                    Err(_) => None,
                }
            } else {
                None
            },
            None => None,
        },
        _ => None,
    }
}

/// The rows from position `p` on, and the position after the last.
pub open spec fn rows_from(columns: Option<Seq<ColumnMetadata>>, d: Seq<u8>, p: int) -> (
    Seq<Seq<(usize, Value)>>,
    int,
)
    decreases d.len() - p,
{
    match next_row(columns, d, p) {
        Some((cells, q)) => if p < q <= d.len() {
            let (rows, end) = rows_from(columns, d, q);
            (seq![cells] + rows, end)
        } else {
            (Seq::empty(), p)
        },
        None => (Seq::empty(), p),
    }
}

/// Whether the rows from position `p` on, and what comes after them, can be read into a sink.
pub open spec fn rows_fit<W: RowWriter>(
    columns: Option<Seq<ColumnMetadata>>,
    d: Seq<u8>,
    p: int,
    writer: W,
) -> bool
    decreases d.len() - p,
{
    &&& next_fits(columns, d, p, writer)
    &&& match next_row(columns, d, p) {
        Some((cells, q)) => p < q <= d.len() ==> rows_fit(columns, d, q, writer),
        None => true,
    }
}

/// Whether writing these rows, each with its end, leads from one state of a sink to another.
pub open spec fn wrote_rows<W: RowWriter>(pre: W, post: W, rows: Seq<Seq<(usize, Value)>>) -> bool
    decreases rows.len(),
{
    if rows.len() == 0 {
        pre == post
    } else {
        exists|before: W, full: W|
            wrote_rows(pre, before, rows.drop_last()) && #[trigger] wrote_all(
                before,
                full,
                rows.last(),
            ) && #[trigger] W::ended(full, post)
    }
}

/// A row ends behind its start, inside the data.
pub proof fn law_row_end(columns: Option<Seq<ColumnMetadata>>, d: Seq<u8>, p: int)
    requires
        p <= d.len(),
    ensures
        next_row(columns, d, p) matches Some((cells, q)) ==> p < q <= d.len(),
{
    if columns is Some && p < d.len() {
        let cols = columns->Some_0;
        lemma_row_cells_end(cols, cols.len(), None, d, p + 1);
        if get_bytes(d, p + 1, bitmap_len(cols.len())) is Ok {
            let (b, q) = get_bytes(d, p + 1, bitmap_len(cols.len()))->Ok_0;
            lemma_row_cells_end(cols, cols.len(), Some(b), d, q);
        }
    }
}

/// The columns of a row end behind their start, inside the data.
proof fn lemma_row_cells_end(
    cols: Seq<ColumnMetadata>,
    n: nat,
    bitmap: Option<Seq<u8>>,
    d: Seq<u8>,
    p: int,
)
    requires
        p <= d.len(),
    ensures
        row_cells(cols, n, bitmap, d, p).1 matches Ok(q) ==> p <= q <= d.len(),
    decreases n,
{
    if n > 0 {
        lemma_row_cells_end(cols, (n - 1) as nat, bitmap, d, p);
        if row_cells(cols, (n - 1) as nat, bitmap, d, p).1 is Ok {
            reveal(cell_at);
            law_value_end(&cols[n - 1], d, row_cells(cols, (n - 1) as nat, bitmap, d, p).1->Ok_0);
        }
    }
}

/// What a sink can take, one that takes no less can take too.
proof fn lemma_rows_fit_on<W: RowWriter>(
    columns: Option<Seq<ColumnMetadata>>,
    d: Seq<u8>,
    p: int,
    pre: W,
    post: W,
)
    requires
        rows_fit(columns, d, p, pre),
        forall|c: usize, v: Value| #[trigger] pre.accepts(c, v) ==> post.accepts(c, v),
    ensures
        rows_fit(columns, d, p, post),
    decreases d.len() - p,
{
    assert(next_fits(columns, d, p, post));
    if next_row(columns, d, p) matches Some((cells, q)) && p < q <= d.len() {
        lemma_rows_fit_on(columns, d, next_row(columns, d, p)->Some_0.1, pre, post);
    }
}

/// One more row extends what was written.
proof fn lemma_wrote_rows_push<W: RowWriter>(
    pre: W,
    before: W,
    full: W,
    post: W,
    rows: Seq<Seq<(usize, Value)>>,
    cells: Seq<(usize, Value)>,
)
    requires
        wrote_rows(pre, before, rows),
        wrote_all(before, full, cells),
        W::ended(full, post),
    ensures
        wrote_rows(pre, post, rows.push(cells)),
{
    let longer = rows.push(cells);
    assert(longer.drop_last() =~= rows);
    assert(wrote_all(before, full, longer.last()));
}

/// Reads the tokens of a server's answer.
pub struct TokenStreamReader<R: TokenParserRegistry> {
    pub packet_reader: ByteReader,
    pub parser_registry: Box<R>,
}

impl<R: TokenParserRegistry> TokenStreamReader<R> {
    /// A reader of these bytes, with these parsers.
    pub fn new(packet_reader: ByteReader, parser_registry: Box<R>) -> (r: TokenStreamReader<R>)
        ensures
            r.packet_reader == packet_reader,
            r.parser_registry == parser_registry,
    {
        TokenStreamReader { packet_reader, parser_registry }
    }

    /// The columns of a context; a protocol error where it has none.
    pub fn extract_column_metadata(context: &ParserContext) -> (r: TdsResult<&Vec<ColumnMetadata>>)
        ensures
            match columns_of(context) {
                Some(c) => r matches Ok(v) && v@ == c,
                None => r matches Err(e) && e.kind() == ErrorKind::Protocol,
            },
    {
        extract_column_metadata(context)
    }

    /// The parser of a type of tokens; a protocol error where there is none.
    pub fn dispatch_token(&self, token_type: TokenType) -> (r: TdsResult<TokenParsers>)
        ensures
            match self.parser_registry.parser(token_type) {
                Some(p) => r == Ok::<TokenParsers, Error>(p),
                None => r matches Err(e) && e.kind() == ErrorKind::Protocol,
            },
    {
        match self.parser_registry.get_parser(&token_type) {
            Some(p) => Ok(*p),
            None => Err(
                Error::ProtocolError(
                    number_message(
                        "No parser implemented for token type: ",
                        token_type.code() as u128,
                        ". This token type is not supported yet.",
                    ),
                ),
            ),
        }
    }

    /// Reads the type of the next token, and says which parser reads the rest of it.
    pub fn receive_token(&mut self) -> (r: TdsResult<TokenParsers>)
        ensures
            final(self).parser_registry == old(self).parser_registry,
            final(self).packet_reader.data() == old(self).packet_reader.data(),
            match get_byte(old(self).packet_reader.data(), old(self).packet_reader.pos()) {
                Err(k) => r matches Err(e) && e.kind() == k,
                Ok((code, p)) => final(self).packet_reader.pos() == p && match TokenType::of_code(
                    code,
                ) {
                    None => r matches Err(e) && e.kind() == ErrorKind::Protocol,
                    Some(t) => match old(self).parser_registry.parser(t) {
                        Some(x) => r == Ok::<TokenParsers, Error>(x),
                        None => r matches Err(e) && e.kind() == ErrorKind::Protocol,
                    },
                },
            },
    {
        let code: u8 = self.packet_reader.read_byte()?;
        let token_type: TokenType = TokenType::from_code(code)?;
        self.dispatch_token(token_type)
    }

    /// Whether the next token has no column without meaning where it is a row.
    pub fn next_is_decodable(&self, context: &ParserContext) -> (b: bool)
        ensures
            b == next_decodable(
                columns_of(context),
                self.packet_reader.data(),
                self.packet_reader.pos(),
            ),
    {
        let columns: &Vec<ColumnMetadata> = match context {
            ParserContext::ColumnMetadata(m) => &m.columns,
            ParserContext::Empty(_) => {
                return true;
            },
        };
        let mut reader = self.packet_reader.duplicate();
        let code: u8 = match reader.read_byte() {
            Ok(code) => code,
            Err(_) => {
                return true;
            },
        };
        match TokenType::from_code(code) {
            Ok(TokenType::Row) => columns_decodable(&mut reader, columns, &None),
            Ok(TokenType::NbcRow) => match reader.read_bytes(null_bitmap_len(columns.len())) {
                Ok(bitmap) => columns_decodable(&mut reader, columns, &Some(bitmap)),
                Err(_) => true,
            },
            _ => true,
        }
    }

    /// Reads the type of the next token. A row is decoded into a sink; of another token it is said
    /// which parser reads the rest of it.
    pub fn receive_row_into<W: RowWriter>(
        &mut self,
        context: &ParserContext,
        writer: &mut W,
    ) -> (r: TdsResult<NextToken>)
        requires
            next_fits(
                columns_of(context),
                old(self).packet_reader.data(),
                old(self).packet_reader.pos(),
                *old(writer),
            ),
        ensures
            final(self).parser_registry == old(self).parser_registry,
            final(self).packet_reader.data() == old(self).packet_reader.data(),
            received(
                &*old(self).parser_registry,
                columns_of(context),
                old(self).packet_reader.data(),
                old(self).packet_reader.pos(),
                *old(writer),
                *final(writer),
                r,
                final(self).packet_reader.pos(),
            ),
            forall|c: usize, v: Value| #[trigger]
                old(writer).accepts(c, v) ==> final(writer).accepts(c, v),
    {
        let code: u8 = self.packet_reader.read_byte()?;
        let token_type: TokenType = TokenType::from_code(code)?;
        match token_type {
            TokenType::Row => {
                let columns = extract_column_metadata(context)?;
                decode_columns(&mut self.packet_reader, columns, &None, writer)?;
                Ok(NextToken::RowWritten)
            },
            TokenType::NbcRow => {
                let columns = extract_column_metadata(context)?;
                let bitmap_bytes: usize = null_bitmap_len(columns.len());
                let bitmap = self.packet_reader.read_bytes(bitmap_bytes)?;
                decode_columns(&mut self.packet_reader, columns, &Some(bitmap), writer)?;
                Ok(NextToken::RowWritten)
            },
            t => {
                let parser: TokenParsers = self.dispatch_token(t)?;
                Ok(NextToken::Parse(parser))
            },
        }
    }

    /// Reads rows into a sink, each with its end, up to the first token that is none. Gives how many
    /// there were, and the parser of that token.
    pub fn read_rows_bulk<W: RowWriter>(
        &mut self,
        context: &ParserContext,
        writer: &mut W,
    ) -> (r: TdsResult<(usize, TokenParsers)>)
        requires
            rows_fit(
                columns_of(context),
                old(self).packet_reader.data(),
                old(self).packet_reader.pos(),
                *old(writer),
            ),
        ensures
            final(self).parser_registry == old(self).parser_registry,
            final(self).packet_reader.data() == old(self).packet_reader.data(),
            ({
                let d = old(self).packet_reader.data();
                let (rows, p) = rows_from(columns_of(context), d, old(self).packet_reader.pos());
                exists|mid: W| #[trigger]
                    wrote_rows(*old(writer), mid, rows) && (match r {
                        Ok((count, parser)) => count == rows.len() && received(
                            &*old(self).parser_registry,
                            columns_of(context),
                            d,
                            p,
                            mid,
                            *final(writer),
                            Ok(NextToken::Parse(parser)),
                            final(self).packet_reader.pos(),
                        ),
                        Err(e) => received(
                            &*old(self).parser_registry,
                            columns_of(context),
                            d,
                            p,
                            mid,
                            *final(writer),
                            Err(e),
                            final(self).packet_reader.pos(),
                        ),
                    })
            }),
    {
        let ghost d = self.packet_reader.data();
        let ghost start = self.packet_reader.pos();
        let ghost cols = columns_of(context);
        let ghost all = rows_from(cols, d, start);
        let ghost mut rows = Seq::<Seq<(usize, Value)>>::empty();
        let mut count: usize = 0;
        assert(rows + all.0 =~= all.0);
        loop
            invariant
                cols == columns_of(context),
                all == rows_from(cols, d, start),
                d == old(self).packet_reader.data(),
                start == old(self).packet_reader.pos(),
                self.packet_reader.data() == d,
                self.parser_registry == old(self).parser_registry,
                rows.len() == count,
                rows + rows_from(cols, d, self.packet_reader.pos()).0 == all.0,
                rows_from(cols, d, self.packet_reader.pos()).1 == all.1,
                wrote_rows(*old(writer), *writer, rows),
                rows_fit(cols, d, self.packet_reader.pos(), *writer),
                count <= self.packet_reader.pos(),
            decreases d.len() - self.packet_reader.pos(),
        {
            let ghost before = *writer;
            let at: usize = self.packet_reader.position();
            proof {
                law_row_end(cols, d, at as int);
            }
            match self.receive_row_into(context, writer) {
                Ok(NextToken::RowWritten) => {
                    let ghost full = *writer;
                    writer.end_row();
                    let after: usize = self.packet_reader.position();
                    proof {
                        let (cells, q) = next_row(cols, d, at as int)->Some_0;
                        lemma_wrote_rows_push(*old(writer), before, full, *writer, rows, cells);
                        lemma_rows_fit_on(cols, d, q, before, *writer);
                        assert(rows.push(cells) + rows_from(cols, d, q).0 =~= rows + (seq![cells]
                            + rows_from(cols, d, q).0));
                        rows = rows.push(cells);
                    }
                    count += 1;
                },
                Ok(NextToken::Parse(parser)) => {
                    assert(rows + Seq::<Seq<(usize, Value)>>::empty() =~= rows);
                    return Ok((count, parser));
                },
                Err(e) => {
                    assert(rows + Seq::<Seq<(usize, Value)>>::empty() =~= rows);
                    return Err(e);
                },
            }
        }
    }
}

/// The columns of a context; a protocol error where it has none.
pub fn extract_column_metadata(context: &ParserContext) -> (r: TdsResult<&Vec<ColumnMetadata>>)
    ensures
        match columns_of(context) {
            Some(c) => r matches Ok(v) && v@ == c,
            None => r matches Err(e) && e.kind() == ErrorKind::Protocol,
        },
{
    match context {
        ParserContext::ColumnMetadata(metadata) => Ok(&metadata.columns),
        ParserContext::Empty(_) => Err(
            Error::ProtocolError(
                String::from_str("Expected ColumnMetadata in context for row decoding"),
            ),
        ),
    }
}

/// The view of a bitmap that may be missing.
pub open spec fn bitmap_view(bitmap: Option<Vec<u8>>) -> Option<Seq<u8>> {
    match bitmap {
        Some(b) => Some(b@),
        None => None,
    }
}

/// Decodes a column of a row into a sink.
fn decode_cell<W: RowWriter>(
    decoder: &GenericDecoder,
    reader: &mut ByteReader,
    column: &ColumnMetadata,
    col: usize,
    writer: &mut W,
) -> (r: TdsResult<()>)
    requires
        decodable(column, old(reader).data(), old(reader).pos()),
        cell_at(column, old(reader).data(), old(reader).pos()) matches Ok((v, _)) ==> old(writer).accepts(
            col,
            v,
        ),
    ensures
        final(reader).data() == old(reader).data(),
        forall|c: usize, v: Value| #[trigger]
            old(writer).accepts(c, v) ==> final(writer).accepts(c, v),
        match cell_at(column, old(reader).data(), old(reader).pos()) {
            Ok((v, p)) => r is Ok && final(reader).pos() == p && W::wrote(
                *old(writer),
                *final(writer),
                col,
                v,
            ),
            Err(k) => (r matches Err(e) && e.kind() == k) && *final(writer) == *old(writer),
        },
{
    reveal(cell_at);
    decoder.decode_into(reader, column, col, writer)
}

/// Whether no column of a row is a variant that has no meaning.
#[verifier::rlimit(40)]
#[verifier::spinoff_prover]
fn columns_decodable(
    reader: &mut ByteReader,
    columns: &Vec<ColumnMetadata>,
    bitmap: &Option<Vec<u8>>,
) -> (b: bool)
    requires
        bitmap matches Some(b) ==> b@.len() == bitmap_len(columns@.len()),
    ensures
        b == row_decodable(columns@, bitmap_view(*bitmap), old(reader).data(), old(reader).pos()),
{
    let decoder = GenericDecoder::default();
    let mut writer = DefaultRowWriter::new(0);
    let ghost d = reader.data();
    let ghost p = reader.pos();
    let ghost b = bitmap_view(*bitmap);
    let mut col: usize = 0;
    while col < columns.len()
        invariant
            col <= columns@.len(),
            b == bitmap_view(*bitmap),
            bitmap matches Some(x) ==> x@.len() == bitmap_len(columns@.len()),
            reader.data() == d,
            d == old(reader).data(),
            p == old(reader).pos(),
            row_cells(columns@, col as nat, b, d, p).1 == Ok::<int, ErrorKind>(reader.pos()),
            forall|i: int|
                #![trigger columns@[i]]
                0 <= i < col && !(b matches Some(x) && null_bit(x, i)) ==> (row_cells(
                    columns@,
                    i as nat,
                    b,
                    d,
                    p,
                ).1 matches Ok(q) ==> decodable(&columns@[i], d, q)),
        decreases columns@.len() - col,
    {
        let ghost q = reader.pos();
        let ghost column = columns@[col as int];
        let missing: bool = match bitmap {
            Some(x) => is_null_bit(x, col),
            None => false,
        };
        if !missing {
            if !decoder.is_decodable(reader, &columns[col]) {
                return false;
            }
            let result = decode_cell(&decoder, reader, &columns[col], col, &mut writer);
            if result.is_err() {
                proof {
                    assert(row_cells(columns@, (col + 1) as nat, b, d, p).1 is Err);
                    assert forall|i: int|
                        #![trigger columns@[i]]
                        col < i < columns@.len() implies row_cells(columns@, i as nat, b, d, p).1 is Err by {
                        lemma_row_cells_grow(columns@, (col + 1) as nat, i as nat, b, d, p);
                    }
                }
                return true;
            }
        }
        col += 1;
    }
    true
}

/// Decodes the columns of a row into a sink.
#[verifier::rlimit(40)]
#[verifier::spinoff_prover]
fn decode_columns<W: RowWriter>(
    reader: &mut ByteReader,
    columns: &Vec<ColumnMetadata>,
    bitmap: &Option<Vec<u8>>,
    writer: &mut W,
) -> (r: TdsResult<()>)
    requires
        bitmap matches Some(b) ==> b@.len() == bitmap_len(columns@.len()),
        row_decodable(columns@, bitmap_view(*bitmap), old(reader).data(), old(reader).pos()),
        accepts_all(
            *old(writer),
            row_cells(
                columns@,
                columns@.len(),
                bitmap_view(*bitmap),
                old(reader).data(),
                old(reader).pos(),
            ).0,
        ),
    ensures
        final(reader).data() == old(reader).data(),
        ({
            let (cells, at) = row_cells(
                columns@,
                columns@.len(),
                bitmap_view(*bitmap),
                old(reader).data(),
                old(reader).pos(),
            );
            &&& wrote_all(*old(writer), *final(writer), cells)
            &&& match at {
                Ok(q) => r is Ok && final(reader).pos() == q,
                Err(k) => r matches Err(e) && e.kind() == k,
            }
        }),
        forall|c: usize, v: Value| #[trigger]
            old(writer).accepts(c, v) ==> final(writer).accepts(c, v),
{
    let decoder = GenericDecoder::default();
    let ghost d = reader.data();
    let ghost p = reader.pos();
    let ghost b = bitmap_view(*bitmap);
    let ghost all = row_cells(columns@, columns@.len(), b, d, p).0;
    let mut col: usize = 0;
    while col < columns.len()
        invariant
            col <= columns@.len(),
            b == bitmap_view(*bitmap),
            bitmap matches Some(x) ==> x@.len() == bitmap_len(columns@.len()),
            reader.data() == d,
            d == old(reader).data(),
            p == old(reader).pos(),
            row_decodable(columns@, b, d, p),
            all == row_cells(columns@, columns@.len(), b, d, p).0,
            forall|c: usize, v: Value| #[trigger]
                old(writer).accepts(c, v) ==> writer.accepts(c, v),
            accepts_all(*old(writer), all),
            row_cells(columns@, col as nat, b, d, p).1 == Ok::<int, ErrorKind>(reader.pos()),
            wrote_all(*old(writer), *writer, row_cells(columns@, col as nat, b, d, p).0),
        decreases columns@.len() - col,
    {
        let ghost mid = *writer;
        let ghost cells = row_cells(columns@, col as nat, b, d, p).0;
        let ghost next = row_cells(columns@, (col + 1) as nat, b, d, p);
        let ghost q = reader.pos();
        proof {
            lemma_row_cells_grow(columns@, (col + 1) as nat, columns@.len(), b, d, p);
            lemma_row_cells_len(columns@, col as nat, b, d, p);
            lemma_row_cells_len(columns@, (col + 1) as nat, b, d, p);
        }
        let missing: bool = match bitmap {
            Some(x) => is_null_bit(x, col),
            None => false,
        };
        if missing {
            proof {
                assert(next.0 == cells.push((col, Value::Null)));
                assert(all[col as int] == next.0[col as int]);
            }
            writer.write_null(col);
            proof {
                lemma_wrote_all_push(*old(writer), mid, *writer, cells, (col, Value::Null));
            }
        } else {
            proof {
                assert(decodable(&columns@[col as int], d, q));
                if cell_at(&columns@[col as int], d, q) is Ok {
                    assert(all[col as int] == next.0[col as int]);
                }
            }
            let r = decode_cell(&decoder, reader, &columns[col], col, writer);
            match r {
                Ok(_) => {
                    proof {
                        let v = cell_at(&columns@[col as int], d, q)->Ok_0.0;
                        lemma_wrote_all_push(*old(writer), mid, *writer, cells, (col, v));
                    }
                },
                Err(e) => {
                    return Err(e);
                },
            }
        }
        col += 1;
    }
    Ok(())
}

/// Each column that was decoded gave one value.
proof fn lemma_row_cells_len(
    cols: Seq<ColumnMetadata>,
    n: nat,
    bitmap: Option<Seq<u8>>,
    d: Seq<u8>,
    p: int,
)
    ensures
        row_cells(cols, n, bitmap, d, p).1 is Ok ==> row_cells(cols, n, bitmap, d, p).0.len() == n,
    decreases n,
{
    if n > 0 {
        lemma_row_cells_len(cols, (n - 1) as nat, bitmap, d, p);
    }
}

/// Each token is parsed by the parser of its own; other tokens have none.
pub proof fn law_parsers(t: TokenType)
    ensures
        t is EnvChange ==> (parser_of(t) matches Some(p) && p is EnvChange),
        t is LoginAck ==> (parser_of(t) matches Some(p) && p is LoginAck),
        t is Done ==> (parser_of(t) matches Some(p) && p is Done),
        t is DoneInProc ==> (parser_of(t) matches Some(p) && p is DoneInProc),
        t is DoneProc ==> (parser_of(t) matches Some(p) && p is DoneProc),
        t is Info ==> (parser_of(t) matches Some(p) && p is Info),
        t is Error ==> (parser_of(t) matches Some(p) && p is Error),
        t is FedAuthInfo ==> (parser_of(t) matches Some(p) && p is FedAuthInfo),
        t is FeatureExtAck ==> (parser_of(t) matches Some(p) && p is FeatureExtAck),
        t is ColMetadata ==> (parser_of(t) matches Some(p) && p is ColMetadata),
        t is Row ==> (parser_of(t) matches Some(p) && p is Row),
        t is Order ==> (parser_of(t) matches Some(p) && p is Order),
        t is ReturnStatus ==> (parser_of(t) matches Some(p) && p is ReturnStatus),
        t is NbcRow ==> (parser_of(t) matches Some(p) && p is NbcRow),
        t is ReturnValue ==> (parser_of(t) matches Some(p) && p is ReturnValue),
        t is SSPI ==> (parser_of(t) matches Some(p) && p is Sspi),
        t is AltMetadata || t is AltRow || t is ColInfo || t is DataClassification || t is Offset || t
            is SessionState || t is TabName ==> parser_of(t) is None,
{
}

} // verus!
