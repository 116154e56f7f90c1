//! The two passes of the assembler.
//!
//! The tokens are first grouped into items: label definitions, statements
//! and stray tokens. The first pass walks the items with an address counter
//! and collects the address of every label. The second pass walks them again
//! and encodes each statement with the finished symbol table, so that a
//! reference in front of a label's definition is resolved like one behind
//! it. Both passes go on after an error, so that one run reports every
//! defect.
use super::asm_error::{message, message_of, AsmError, AsmErrorView, ErrorType};
use super::directive::Directive;
use super::encoding::{
    encode, encode_statement, label_in, label_of, lemma_size_is_length, origin_of, read_origin,
    size_of, statement_size,
};
use super::symbols::SymbolTable;
use super::token::{Token, TokenKind, TokenType, TokenView};
use vstd::prelude::*;
use vstd::string::*;

verus! {

/// One past the last address.
pub const ADDRESS_LIMIT: u32 = 0x1_0000;

/// A group of tokens, by their positions in the token stream.
#[derive(Clone, Copy, Debug, PartialEq, Eq, Structural)]
pub enum Item {
    /// A label that is defined here: the token at this position.
    Definition(usize),
    /// An instruction or a directive at the first position, with the tokens
    /// behind it up to the second position as its operands.
    Statement(usize, usize),
    /// A token that belongs to no statement.
    Stray(usize),
}

/// Whether a token of this kind starts a statement.
pub open spec fn is_head(kind: TokenKind) -> bool {
    kind is Instruction || kind is Directive
}

/// Where the operands that start at `from` end: at the next token that
/// starts a statement or stands on another line than `line`.
pub open spec fn operands_end(tokens: Seq<TokenView>, line: usize, from: int) -> int
    decreases tokens.len() - from,
{
    if from < 0 || from >= tokens.len() || is_head(tokens[from].kind) || tokens[from].line_num
        != line {
        from
    } else {
        operands_end(tokens, line, from + 1)
    }
}

/// Operands end at or behind their start and within the tokens.
pub proof fn lemma_operands_end(tokens: Seq<TokenView>, line: usize, from: int)
    requires
        0 <= from <= tokens.len(),
    ensures
        from <= operands_end(tokens, line, from) <= tokens.len(),
    decreases tokens.len() - from,
{
    if from < tokens.len() && !is_head(tokens[from].kind) && tokens[from].line_num == line {
        lemma_operands_end(tokens, line, from + 1);
    }
}

/// The items of the tokens from position `from` on.
///
/// An instruction or a directive takes the tokens behind it on its line as
/// operands. A label that is not taken as an operand is a definition. Any
/// other token that is not taken as an operand is stray.
pub open spec fn items_from(tokens: Seq<TokenView>, from: int) -> Seq<Item>
    decreases tokens.len() - from,
{
    if from < 0 || from >= tokens.len() {
        Seq::empty()
    } else if is_head(tokens[from].kind) {
        let end = operands_end(tokens, tokens[from].line_num, from + 1);
        proof {
            lemma_operands_end(tokens, tokens[from].line_num, from + 1);
        }
        seq![Item::Statement(from as usize, end as usize)] + items_from(tokens, end)
    } else if tokens[from].kind is Label {
        seq![Item::Definition(from as usize)] + items_from(tokens, from + 1)
    } else {
        seq![Item::Stray(from as usize)] + items_from(tokens, from + 1)
    }
}

/// The items of `tokens`.
pub open spec fn items_of(tokens: Seq<TokenView>) -> Seq<Item> {
    items_from(tokens, 0)
}

/// Whether the positions in `item` lie within `count` tokens.
pub open spec fn item_in_range(item: Item, count: int) -> bool {
    match item {
        Item::Definition(at) => at < count,
        Item::Statement(head, end) => head < end <= count,
        Item::Stray(at) => at < count,
    }
}

/// Whether a token of this kind starts a statement.
fn heads(token: &TokenType) -> (yes: bool)
    ensures
        yes == is_head(token@),
{
    match token {
        TokenType::Instruction(_) => true,
        TokenType::Directive(_) => true,
        _ => false,
    }
}

/// Groups `tokens` into items.
pub fn group(tokens: &Vec<Token>) -> (items: Vec<Item>)
    ensures
        items@ == items_of(tokens.deep_view()),
        forall|k: int|
            0 <= k < items@.len() ==> item_in_range(#[trigger] items@[k], tokens@.len() as int),
{
    let ghost views = tokens.deep_view();
    let mut items: Vec<Item> = Vec::new();
    let mut index: usize = 0;
    while index < tokens.len()
        invariant
            index <= tokens@.len(),
            views == tokens.deep_view(),
            items@ + items_from(views, index as int) == items_of(views),
            forall|k: int|
                0 <= k < items@.len() ==> item_in_range(#[trigger] items@[k], tokens@.len() as int),
        decreases tokens@.len() - index,
    {
        if heads(&tokens[index].inner_token) {
            let line = tokens[index].line_num;
            let head = index;
            index += 1;
            while index < tokens.len() && !heads(&tokens[index].inner_token)
                && tokens[index].line_num == line
                invariant
                    head < index <= tokens@.len(),
                    views == tokens.deep_view(),
                    operands_end(views, line, head + 1) == operands_end(views, line, index as int),
                decreases tokens@.len() - index,
            {
                index += 1;
            }
            items.push(Item::Statement(head, index));
        } else {
            let definition = match &tokens[index].inner_token {
                TokenType::Label(_) => true,
                _ => false,
            };
            if definition {
                items.push(Item::Definition(index));
            } else {
                items.push(Item::Stray(index));
            }
            index += 1;
        }
    }
    items
}

/// The diagnostic of kind `error_type` about `token`.
pub open spec fn failure(error_type: ErrorType, token: TokenView) -> AsmErrorView {
    AsmErrorView {
        line: token.text,
        line_num: token.line_num,
        error_type,
        message: message_of(error_type),
    }
}

/// The diagnostic about a program without an origin.
pub open spec fn missing_origin() -> AsmErrorView {
    AsmErrorView {
        line: Seq::empty(),
        line_num: 0,
        error_type: ErrorType::OriginError,
        message: message_of(ErrorType::OriginError),
    }
}

/// The diagnostic of kind `error_type` about `token`.
fn fail(error_type: ErrorType, token: &Token) -> (error: AsmError)
    ensures
        error@ == failure(error_type, token@),
{
    AsmError::new(token.original_match.as_str(), token.line_num, error_type, message(error_type))
}

/// What the first pass knows after some items.
pub struct Collected {
    /// Whether any item was seen.
    pub started: bool,
    /// Whether `.END` was seen.
    pub ended: bool,
    /// The origin, once a well-formed `.ORIG` has opened the program.
    pub origin: Option<u16>,
    /// The address of the next word, at most one past the last address.
    pub address: int,
    /// The labels defined so far.
    pub symbols: Map<Seq<char>, u16>,
    /// For each item seen, the address that the counter had in front of it.
    pub addresses: Seq<int>,
    /// The diagnostics so far.
    pub errors: Seq<AsmErrorView>,
}

impl Collected {
    /// This state with one more diagnostic.
    pub open spec fn fail(self, error_type: ErrorType, token: TokenView) -> Collected {
        Collected { errors: self.errors.push(failure(error_type, token)), ..self }
    }
}

/// The state of the first pass before any item.
pub open spec fn nothing_collected() -> Collected {
    Collected {
        started: false,
        ended: false,
        origin: None,
        address: 0,
        symbols: Map::empty(),
        addresses: Seq::empty(),
        errors: Seq::empty(),
    }
}

/// The first pass over one item.
///
/// Behind `.END` nothing counts any more. `.ORIG` has to be the first item;
/// there it sets the origin and the address counter, and anywhere else it is
/// an error. A definition binds its label to the address counter, unless
/// the label is bound already or the counter has run past the last address.
/// A statement moves the counter on by its size; a statement that does not
/// fit below the top of the address space is an error and leaves the counter
/// at the top. A stray token is an error.
pub open spec fn collect_step(s: Collected, tokens: Seq<TokenView>, item: Item) -> Collected {
    let seen = Collected { started: true, addresses: s.addresses.push(s.address), ..s };
    if s.ended {
        Collected { addresses: s.addresses.push(s.address), ..s }
    } else {
        match item {
            Item::Stray(at) => seen.fail(ErrorType::InvalidTokenError, tokens[at as int]),
            Item::Definition(at) => {
                let name = label_of(tokens[at as int].kind);
                if seen.symbols.dom().contains(name) {
                    seen.fail(ErrorType::DuplicateLabelError, tokens[at as int])
                } else if seen.address > 0xFFFF {
                    seen.fail(ErrorType::AddressOverflowError, tokens[at as int])
                } else {
                    Collected { symbols: seen.symbols.insert(name, seen.address as u16), ..seen }
                }
            },
            Item::Statement(head, end) => {
                let first = tokens[head as int];
                let operands = tokens.subrange(head + 1, end as int);
                if first.kind == TokenKind::Directive(Directive::ORIG) {
                    if s.started {
                        seen.fail(ErrorType::OriginError, first)
                    } else {
                        Collected {
                            origin: origin_of(operands),
                            address: match origin_of(operands) {
                                Some(origin) => origin as int,
                                None => 0,
                            },
                            ..seen
                        }
                    }
                } else if first.kind == TokenKind::Directive(Directive::END) {
                    Collected { ended: true, ..seen }
                } else if seen.address + statement_size(first.kind, operands) > ADDRESS_LIMIT {
                    Collected { address: ADDRESS_LIMIT as int, ..seen }.fail(
                        ErrorType::AddressOverflowError,
                        first,
                    )
                } else {
                    Collected {
                        address: seen.address + statement_size(first.kind, operands),
                        ..seen
                    }
                }
            },
        }
    }
}

/// The first pass over the first `count` of `items`.
pub open spec fn collect(tokens: Seq<TokenView>, items: Seq<Item>, count: int) -> Collected
    decreases count,
{
    if count <= 0 {
        nothing_collected()
    } else {
        collect_step(collect(tokens, items, count - 1), tokens, items[count - 1])
    }
}

/// The whole first pass: every item, and at the end a diagnostic if the
/// program has no origin.
pub open spec fn first_pass(tokens: Seq<TokenView>) -> Collected {
    let items = items_of(tokens);
    let done = collect(tokens, items, items.len() as int);
    if done.origin.is_none() {
        Collected { errors: done.errors.push(missing_origin()), ..done }
    } else {
        done
    }
}

/// What the second pass has after some items.
pub struct Encoded {
    /// Whether `.END` was seen.
    pub ended: bool,
    /// The words of the image so far, without the origin.
    pub words: Seq<u16>,
    /// The diagnostics so far.
    pub errors: Seq<AsmErrorView>,
}

/// The second pass over one item, which stands at `address`.
///
/// Behind `.END` nothing counts any more. A statement is encoded; its words
/// are appended, or its error is recorded and the statement left out.
/// Definitions and stray tokens were dealt with in the first pass.
pub open spec fn encode_step(
    s: Encoded,
    tokens: Seq<TokenView>,
    item: Item,
    address: int,
    symbols: Map<Seq<char>, u16>,
) -> Encoded {
    if s.ended {
        s
    } else {
        match item {
            Item::Statement(head, end) => {
                let first = tokens[head as int];
                let after = Encoded {
                    ended: first.kind == TokenKind::Directive(Directive::END),
                    ..s
                };
                match encode_statement(
                    first.kind,
                    tokens.subrange(head + 1, end as int),
                    address,
                    symbols,
                ) {
                    Ok(words) => Encoded { words: s.words + words, ..after },
                    Err(error_type) => Encoded {
                        errors: s.errors.push(failure(error_type, first)),
                        ..after
                    },
                }
            },
            _ => s,
        }
    }
}

/// The second pass over the first `count` of `items`, with the addresses
/// and the symbols of the first pass.
pub open spec fn encode_items(
    tokens: Seq<TokenView>,
    items: Seq<Item>,
    addresses: Seq<int>,
    symbols: Map<Seq<char>, u16>,
    count: int,
) -> Encoded
    decreases count,
{
    if count <= 0 {
        Encoded { ended: false, words: Seq::empty(), errors: Seq::empty() }
    } else {
        encode_step(
            encode_items(tokens, items, addresses, symbols, count - 1),
            tokens,
            items[count - 1],
            addresses[count - 1],
            symbols,
        )
    }
}

/// The whole second pass.
pub open spec fn second_pass(tokens: Seq<TokenView>) -> Encoded {
    let items = items_of(tokens);
    let collected = first_pass(tokens);
    encode_items(tokens, items, collected.addresses, collected.symbols, items.len() as int)
}

/// The diagnostics of both passes: those of the first, then those of the
/// second.
pub open spec fn assembly_errors(tokens: Seq<TokenView>) -> Seq<AsmErrorView> {
    first_pass(tokens).errors + second_pass(tokens).errors
}

/// The image of a program without errors: its origin, then its words.
pub open spec fn assembly_image(tokens: Seq<TokenView>) -> Seq<u16> {
    seq![first_pass(tokens).origin.unwrap()] + second_pass(tokens).words
}

/// The first pass at work.
pub struct Collector {
    pub started: bool,
    pub ended: bool,
    pub origin: Option<u16>,
    pub address: u32,
    pub symbols: SymbolTable,
    pub addresses: Vec<u32>,
    pub errors: Vec<AsmError>,
}

impl View for Collector {
    type V = Collected;

    open spec fn view(&self) -> Collected {
        Collected {
            started: self.started,
            ended: self.ended,
            origin: self.origin,
            address: self.address as int,
            symbols: self.symbols@,
            addresses: self.addresses@.map_values(|a: u32| a as int),
            errors: self.errors.deep_view(),
        }
    }
}

impl Collector {
    /// A first pass that has seen nothing.
    pub fn new() -> (collector: Collector)
        ensures
            collector@ == nothing_collected(),
            collector.address == 0,
            collector.addresses@.len() == 0,
    {
        let collector = Collector {
            started: false,
            ended: false,
            origin: None,
            address: 0,
            symbols: SymbolTable::new(),
            addresses: Vec::new(),
            errors: Vec::new(),
        };
        assert(collector@.addresses =~= Seq::<int>::empty());
        assert(collector@.errors =~= Seq::<AsmErrorView>::empty());
        collector
    }

    /// Records a diagnostic of kind `error_type` about `token`.
    fn report(&mut self, error_type: ErrorType, token: &Token)
        ensures
            final(self)@ == old(self)@.fail(error_type, token@),
            final(self).address == old(self).address,
    {
        let ghost before = self.errors.deep_view();
        self.errors.push(fail(error_type, token));
        assert(self.errors.deep_view() =~= before.push(failure(error_type, token@)));
    }

    /// The first pass over `item`.
    pub fn collect_item(&mut self, tokens: &Vec<Token>, item: Item)
        requires
            item_in_range(item, tokens@.len() as int),
            old(self).address <= ADDRESS_LIMIT,
        ensures
            final(self)@ == collect_step(old(self)@, tokens.deep_view(), item),
            final(self).address <= ADDRESS_LIMIT,
    {
        let ghost before = self@;
        let was_started = self.started;
        self.addresses.push(self.address);
        assert(self@.addresses =~= before.addresses.push(before.address));
        if self.ended {
            return ;
        }
        self.started = true;
        match item {
            Item::Stray(at) => {
                self.report(ErrorType::InvalidTokenError, &tokens[at]);
            },
            Item::Definition(at) => {
                let name = label_in(&tokens[at]);
                if self.symbols.lookup(name).is_some() {
                    self.report(ErrorType::DuplicateLabelError, &tokens[at]);
                } else if self.address > 0xFFFF {
                    self.report(ErrorType::AddressOverflowError, &tokens[at]);
                } else {
                    self.symbols.insert(name, self.address as u16);
                }
            },
            Item::Statement(head, end) => {
                let first = &tokens[head];
                match &first.inner_token {
                    TokenType::Directive(Directive::ORIG) => {
                        if was_started {
                            self.report(ErrorType::OriginError, first);
                        } else {
                            self.origin = read_origin(tokens, head + 1, end);
                            self.address = match self.origin {
                                Some(origin) => origin as u32,
                                None => 0,
                            };
                        }
                    },
                    TokenType::Directive(Directive::END) => {
                        self.ended = true;
                    },
                    kind => {
                        let size = size_of(kind, tokens, head + 1, end);
                        if size > ADDRESS_LIMIT - self.address {
                            self.address = ADDRESS_LIMIT;
                            self.report(ErrorType::AddressOverflowError, first);
                        } else {
                            self.address = self.address + size;
                        }
                    },
                }
            },
        }
    }
}

/// The first pass over `items`, the items of `tokens`.
pub fn collect_pass(tokens: &Vec<Token>, items: &Vec<Item>) -> (collector: Collector)
    requires
        items@ == items_of(tokens.deep_view()),
        forall|k: int|
            0 <= k < items@.len() ==> item_in_range(#[trigger] items@[k], tokens@.len() as int),
    ensures
        collector@ == first_pass(tokens.deep_view()),
        collector.addresses@.len() == items@.len(),
        forall|k: int|
            0 <= k < items@.len() ==> #[trigger] collector.addresses@[k] <= ADDRESS_LIMIT,
{
    let mut collector = Collector::new();
    let mut index: usize = 0;
    while index < items.len()
        invariant
            index <= items@.len(),
            items@ == items_of(tokens.deep_view()),
            forall|k: int|
                0 <= k < items@.len() ==> item_in_range(#[trigger] items@[k], tokens@.len() as int),
            collector@ == collect(tokens.deep_view(), items@, index as int),
            collector.address <= ADDRESS_LIMIT,
            collector.addresses@.len() == index,
            forall|k: int| 0 <= k < index ==> #[trigger] collector.addresses@[k] <= ADDRESS_LIMIT,
        decreases items@.len() - index,
    {
        let ghost before = collector.addresses@;
        collector.collect_item(tokens, items[index]);
        proof {
            let views = collector@.addresses;
            assert(views.len() == before.len() + 1);
            assert forall|k: int| 0 <= k < index + 1 implies #[trigger] collector.addresses@[k]
                <= ADDRESS_LIMIT by {
                assert(views[k] == collector.addresses@[k] as int);
            }
        }
        index += 1;
    }
    if collector.origin.is_none() {
        let ghost before = collector.errors.deep_view();
        collector.errors.push(
            AsmError::new("", 0, ErrorType::OriginError, message(ErrorType::OriginError)),
        );
        proof {
            reveal_strlit("");
            assert(""@ =~= Seq::<char>::empty());
            assert(collector.errors.deep_view() =~= before.push(missing_origin()));
        }
    }
    collector
}

/// The second pass at work.
pub struct Encoder {
    pub ended: bool,
    pub words: Vec<u16>,
    pub errors: Vec<AsmError>,
}

impl View for Encoder {
    type V = Encoded;

    open spec fn view(&self) -> Encoded {
        Encoded { ended: self.ended, words: self.words@, errors: self.errors.deep_view() }
    }
}

impl Encoder {
    /// The second pass over `item`, which stands at `address`.
    pub fn encode_item(
        &mut self,
        tokens: &Vec<Token>,
        item: Item,
        address: u32,
        symbols: &SymbolTable,
    )
        requires
            item_in_range(item, tokens@.len() as int),
            address <= ADDRESS_LIMIT,
        ensures
            final(self)@ == encode_step(
                old(self)@,
                tokens.deep_view(),
                item,
                address as int,
                symbols@,
            ),
    {
        if self.ended {
            return ;
        }
        match item {
            Item::Statement(head, end) => {
                let first = &tokens[head];
                let ends = match &first.inner_token {
                    TokenType::Directive(Directive::END) => true,
                    _ => false,
                };
                match encode(&first.inner_token, tokens, head + 1, end, address, symbols) {
                    Ok(mut words) => {
                        self.words.append(&mut words);
                    },
                    Err(error_type) => {
                        let ghost before = self.errors.deep_view();
                        self.errors.push(fail(error_type, first));
                        assert(self.errors.deep_view() =~= before.push(
                            failure(error_type, first@),
                        ));
                    },
                }
                self.ended = ends;
            },
            _ => {},
        }
    }
}

/// The second pass over `items`, the items of `tokens`, with what the first
/// pass collected.
pub fn encode_pass(tokens: &Vec<Token>, items: &Vec<Item>, collector: &Collector) -> (encoder:
    Encoder)
    requires
        items@ == items_of(tokens.deep_view()),
        forall|k: int|
            0 <= k < items@.len() ==> item_in_range(#[trigger] items@[k], tokens@.len() as int),
        collector@ == first_pass(tokens.deep_view()),
        collector.addresses@.len() == items@.len(),
        forall|k: int|
            0 <= k < items@.len() ==> #[trigger] collector.addresses@[k] <= ADDRESS_LIMIT,
    ensures
        encoder@ == second_pass(tokens.deep_view()),
{
    let mut encoder = Encoder { ended: false, words: Vec::new(), errors: Vec::new() };
    assert(encoder@.errors =~= Seq::<AsmErrorView>::empty());
    let mut index: usize = 0;
    while index < items.len()
        invariant
            index <= items@.len(),
            items@ == items_of(tokens.deep_view()),
            forall|k: int|
                0 <= k < items@.len() ==> item_in_range(#[trigger] items@[k], tokens@.len() as int),
            collector.addresses@.len() == items@.len(),
            forall|k: int|
                0 <= k < items@.len() ==> #[trigger] collector.addresses@[k] <= ADDRESS_LIMIT,
            encoder@ == encode_items(
                tokens.deep_view(),
                items@,
                collector@.addresses,
                collector@.symbols,
                index as int,
            ),
        decreases items@.len() - index,
    {
        encoder.encode_item(tokens, items[index], collector.addresses[index], &collector.symbols);
        index += 1;
    }
    encoder
}

/// The first pass records, for every item, the address counter in front of
/// that item.
pub proof fn lemma_addresses(tokens: Seq<TokenView>, items: Seq<Item>, count: int, k: int)
    requires
        0 <= k < count <= items.len(),
    ensures
        collect(tokens, items, count).addresses.len() == count,
        collect(tokens, items, count).addresses[k] == collect(tokens, items, k).address,
    decreases count,
{
    lemma_addresses_len(tokens, items, count - 1);
    if k < count - 1 {
        lemma_addresses(tokens, items, count - 1, k);
    }
}

/// The first pass records one address for every item.
proof fn lemma_addresses_len(tokens: Seq<TokenView>, items: Seq<Item>, count: int)
    requires
        0 <= count <= items.len(),
    ensures
        collect(tokens, items, count).addresses.len() == count,
    decreases count,
{
    if count > 0 {
        lemma_addresses_len(tokens, items, count - 1);
    }
}

/// The address that the image starts at, as far as it is known: the origin,
/// or zero where none was given.
pub open spec fn base_of(origin: Option<u16>) -> int {
    match origin {
        Some(origin) => origin as int,
        None => 0,
    }
}

/// Whether the two passes agree on where the words lie: as long as neither
/// has found an error, the second pass has produced exactly the words
/// between the origin and the address counter of the first pass, and the
/// counter is within the address space.
pub open spec fn laid_out(c: Collected, e: Encoded) -> bool {
    c.errors.len() == 0 && e.errors.len() == 0 ==> {
        &&& c.ended == e.ended
        &&& base_of(c.origin) <= c.address <= ADDRESS_LIMIT
        &&& e.words.len() == c.address - base_of(c.origin)
        &&& !c.started ==> c.origin.is_none()
    }
}

/// The passes agree on where the words lie after any number of items.
pub proof fn lemma_layout(
    tokens: Seq<TokenView>,
    items: Seq<Item>,
    addresses: Seq<int>,
    symbols: Map<Seq<char>, u16>,
    count: int,
)
    requires
        0 <= count <= items.len(),
        forall|k: int| 0 <= k < count ==> addresses[k] == collect(tokens, items, k).address,
    ensures
        laid_out(
            collect(tokens, items, count),
            encode_items(tokens, items, addresses, symbols, count),
        ),
    decreases count,
{
    if count > 0 {
        lemma_layout(tokens, items, addresses, symbols, count - 1);
        let c = collect(tokens, items, count - 1);
        let e = encode_items(tokens, items, addresses, symbols, count - 1);
        let item = items[count - 1];
        let after_c = collect_step(c, tokens, item);
        let after_e = encode_step(e, tokens, item, addresses[count - 1], symbols);
        if after_c.errors.len() == 0 && after_e.errors.len() == 0 {
            match item {
                Item::Statement(head, end) => {
                    lemma_size_is_length(
                        tokens[head as int].kind,
                        tokens.subrange(head + 1, end as int),
                        c.address,
                        symbols,
                    );
                },
                _ => {},
            }
        }
    }
}

/// A program that both passes accept has an origin, and its words fit
/// between the origin and the top of the address space.
pub proof fn lemma_clean_image_fits(tokens: Seq<TokenView>)
    requires
        assembly_errors(tokens).len() == 0,
    ensures
        first_pass(tokens).origin.is_some(),
        crate::vm::memory::image_fits(assembly_image(tokens)),
        assembly_image(tokens).len() == 1 + second_pass(tokens).words.len(),
{
    let items = items_of(tokens);
    let count = items.len() as int;
    let collected = first_pass(tokens);
    assert forall|k: int| 0 <= k < count implies collected.addresses[k] == collect(
        tokens,
        items,
        k,
    ).address by {
        lemma_addresses(tokens, items, count, k);
    }
    lemma_layout(tokens, items, collected.addresses, collected.symbols, count);
}

/// The first pass never takes a diagnostic back.
pub proof fn lemma_errors_grow(tokens: Seq<TokenView>, items: Seq<Item>, early: int, late: int)
    requires
        0 <= early <= late,
    ensures
        collect(tokens, items, early).errors.len() <= collect(tokens, items, late).errors.len(),
    decreases late - early,
{
    if early < late {
        lemma_errors_grow(tokens, items, early, late - 1);
    }
}

/// The second pass never takes a diagnostic back.
pub proof fn lemma_encode_errors_grow(
    tokens: Seq<TokenView>,
    items: Seq<Item>,
    addresses: Seq<int>,
    symbols: Map<Seq<char>, u16>,
    early: int,
    late: int,
)
    requires
        0 <= early <= late,
    ensures
        encode_items(tokens, items, addresses, symbols, early).errors.len() <= encode_items(
            tokens,
            items,
            addresses,
            symbols,
            late,
        ).errors.len(),
    decreases late - early,
{
    if early < late {
        lemma_encode_errors_grow(tokens, items, addresses, symbols, early, late - 1);
    }
}

/// The origin is settled with the first item: no later item changes it.
pub proof fn lemma_origin_settled(tokens: Seq<TokenView>, items: Seq<Item>, early: int, late: int)
    requires
        1 <= early <= late,
    ensures
        collect(tokens, items, early).started || collect(tokens, items, early).ended,
        collect(tokens, items, late).origin == collect(tokens, items, early).origin,
    decreases late,
{
    if early < late {
        lemma_origin_settled(tokens, items, early, late - 1);
    } else if early > 1 {
        lemma_origin_settled(tokens, items, early - 1, early - 1);
    }
}

/// A label that is bound stays bound to the same address as long as the
/// first pass finds no error: a second definition would be one.
pub proof fn lemma_symbol_kept(
    tokens: Seq<TokenView>,
    items: Seq<Item>,
    name: Seq<char>,
    early: int,
    late: int,
)
    requires
        0 <= early <= late,
        collect(tokens, items, early).symbols.dom().contains(name),
        collect(tokens, items, late).errors.len() == 0,
    ensures
        collect(tokens, items, late).symbols.dom().contains(name),
        collect(tokens, items, late).symbols[name] == collect(tokens, items, early).symbols[name],
    decreases late - early,
{
    if early < late {
        lemma_errors_grow(tokens, items, late - 1, late);
        lemma_symbol_kept(tokens, items, name, early, late - 1);
    }
}

/// In a program that both passes accept, a label stands for the address of
/// the word that follows its definition: the origin plus the number of words
/// that the statements in front of the definition take up.
pub proof fn lemma_label_address(tokens: Seq<TokenView>, k: int)
    requires
        assembly_errors(tokens).len() == 0,
        0 <= k < items_of(tokens).len(),
        items_of(tokens)[k] is Definition,
        !collect(tokens, items_of(tokens), k).ended,
    ensures
        ({
            let items = items_of(tokens);
            let name = label_of(tokens[items[k]->Definition_0 as int].kind);
            let collected = first_pass(tokens);
            let in_front = encode_items(tokens, items, collected.addresses, collected.symbols, k);
            &&& collected.origin.is_some()
            &&& collected.symbols.dom().contains(name)
            &&& collected.symbols[name] == collected.origin.unwrap() + in_front.words.len()
        }),
{
    let items = items_of(tokens);
    let count = items.len() as int;
    let collected = first_pass(tokens);
    let name = label_of(tokens[items[k]->Definition_0 as int].kind);
    assert forall|j: int| 0 <= j < count implies collected.addresses[j] == collect(
        tokens,
        items,
        j,
    ).address by {
        lemma_addresses(tokens, items, count, j);
    }
    lemma_errors_grow(tokens, items, k, count);
    lemma_errors_grow(tokens, items, k + 1, count);
    lemma_encode_errors_grow(tokens, items, collected.addresses, collected.symbols, k, count);
    lemma_layout(tokens, items, collected.addresses, collected.symbols, k);
    lemma_symbol_kept(tokens, items, name, k + 1, count);
    if k >= 1 {
        lemma_origin_settled(tokens, items, k, count);
    } else {
        lemma_origin_settled(tokens, items, 1, count);
    }
}

} // verus!
