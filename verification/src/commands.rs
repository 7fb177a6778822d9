//! The operations a front end offers, as functions from named text
//! parameters and a context to a result.
//!
//! Operations that need the pool are cut where the pool is needed: one
//! function says what to ask, the next takes what came back. Asking is the
//! caller's part.

pub mod add_command;
pub mod create_nym_command;
pub mod get_account_command;
pub mod get_info_command;
pub mod get_list_keys_command;
pub mod get_nym_command;

use vstd::prelude::*;
use vstd::utf8::is_ascii_chars;
use crate::alias_map::AliasMap;
use crate::error::LedgerError;
use crate::keys::KeyVault;
use crate::messages::Account;
use crate::messages::Response;
use crate::pool::PoolConfig;
use crate::pool::PoolRegistry;
use crate::pool::PoolState;
use crate::text::ascii_bytes;

verus! {

/// Why a command failed.
#[derive(Clone, Debug, PartialEq, Eq)]
pub enum CommandError {
    /// A required parameter was not given.
    MissingParameter(&'static str),
    /// A parameter that must be an unsigned integer is none.
    InvalidParameter(&'static str),
    /// No wallet is open.
    NoWallet,
    /// No pool is connected.
    NoPool,
    /// The ledger knows no such account.
    NoAccount,
    /// The answer is of another kind than the one asked for.
    UnexpectedResponse,
    /// The library refused or failed.
    Ledger(LedgerError),
}

/// What a command says of one of its parameters.
#[derive(Clone, Copy, Debug, PartialEq, Eq)]
pub struct ParamMetadata {
    pub name: &'static str,
    pub help: &'static str,
    pub required: bool,
}

/// What a command says of itself.
#[derive(Clone, Debug, PartialEq, Eq)]
pub struct CommandMetadata {
    pub name: &'static str,
    pub help: &'static str,
    pub params: Vec<ParamMetadata>,
    pub examples: Vec<&'static str>,
}

/// A parameter that must be given.
pub open spec fn required(name: &'static str, help: &'static str) -> ParamMetadata {
    ParamMetadata { name, help, required: true }
}

/// A parameter that may be given.
pub open spec fn optional(name: &'static str, help: &'static str) -> ParamMetadata {
    ParamMetadata { name, help, required: false }
}

impl CommandMetadata {
    /// Starts the description of a command without parameters or examples.
    pub fn build(name: &'static str, help: &'static str) -> (metadata: Self)
        ensures
            metadata.name == name,
            metadata.help == help,
            metadata.params@ == Seq::<ParamMetadata>::empty(),
            metadata.examples@ == Seq::<&'static str>::empty(),
    {
        CommandMetadata { name, help, params: Vec::new(), examples: Vec::new() }
    }

    /// Adds a parameter that must be given.
    pub fn add_required_param(self, name: &'static str, help: &'static str) -> (metadata: Self)
        ensures
            metadata.name == self.name,
            metadata.help == self.help,
            metadata.examples == self.examples,
            metadata.params@ == self.params@.push(required(name, help)),
    {
        let mut metadata = self;
        metadata.params.push(ParamMetadata { name, help, required: true });
        metadata
    }

    /// Adds a parameter that may be given.
    pub fn add_optional_param(self, name: &'static str, help: &'static str) -> (metadata: Self)
        ensures
            metadata.name == self.name,
            metadata.help == self.help,
            metadata.examples == self.examples,
            metadata.params@ == self.params@.push(optional(name, help)),
    {
        let mut metadata = self;
        metadata.params.push(ParamMetadata { name, help, required: false });
        metadata
    }

    /// Adds an example invocation.
    pub fn add_example(self, example: &'static str) -> (metadata: Self)
        ensures
            metadata.name == self.name,
            metadata.help == self.help,
            metadata.params == self.params,
            metadata.examples@ == self.examples@.push(example),
    {
        let mut metadata = self;
        metadata.examples.push(example);
        metadata
    }

    /// Ends the description.
    pub fn finalize(self) -> (metadata: Self)
        ensures
            metadata == self,
    {
        self
    }
}

/// The named parameters of one command invocation.
pub struct CommandParams {
    values: AliasMap<String>,
}

impl CommandParams {
    /// The names given, in the order in which they were first given.
    pub closed spec fn names(&self) -> Seq<Seq<char>> {
        self.values.aliases()
    }

    /// The values given, each at the position of its name.
    pub closed spec fn values(&self) -> Seq<Seq<char>> {
        Seq::new(self.values.values().len(), |i: int| self.values.values()[i]@)
    }

    /// Whether `name` was given.
    pub open spec fn contains(&self, name: Seq<char>) -> bool {
        exists|i: int| 0 <= i < self.names().len() && #[trigger] self.names()[i] == name
    }

    /// The value given for `name`.
    pub open spec fn value_of(&self, name: Seq<char>) -> Seq<char> {
        self.values()[choose|i: int| 0 <= i < self.names().len() && #[trigger] self.names()[i] == name]
    }

    /// The value given for `name`, if any.
    pub open spec fn lookup(&self, name: Seq<char>) -> Option<Seq<char>> {
        if self.contains(name) {
            Some(self.value_of(name))
        } else {
            None
        }
    }

    /// No parameters.
    pub fn new() -> (params: Self)
        ensures
            params.names() == Seq::<Seq<char>>::empty(),
            forall|name: Seq<char>| !params.contains(name),
    {
        CommandParams { values: AliasMap::new() }
    }

    /// Gives `name` the value `value`, in the place of an earlier value if
    /// there was one.
    pub fn insert(&mut self, name: &str, value: String)
        ensures
            final(self).contains(name@),
            final(self).value_of(name@) == value@,
            forall|other: Seq<char>|
                other != name@ ==> final(self).lookup(other) == old(self).lookup(other),
    {
        proof {
            use_type_invariant(&self.values);
            self.values.lemma_shape();
        }
        match self.values.find(name) {
            Some(at) => {
                let replaced = self.values.replace(name, value);
                proof {
                    use_type_invariant(&self.values);
                    self.values.lemma_shape();
                    assert(self.names()[at as int] == name@);
                    assert forall|other: Seq<char>| other != name@ implies self.lookup(other)
                        == old(self).lookup(other) by {
                        if old(self).contains(other) {
                            let w = choose|i: int|
                                0 <= i < old(self).names().len() && #[trigger] old(self).names()[i]
                                    == other;
                            assert(self.names()[w] == other);
                            assert(self.values()[w] == old(self).values()[w]);
                        }
                    }
                }
            },
            None => {
                let added = self.values.add(name.to_owned(), value);
                proof {
                    use_type_invariant(&self.values);
                    self.values.lemma_shape();
                    let last = self.names().len() - 1;
                    assert(self.names()[last] == name@);
                    assert forall|other: Seq<char>| other != name@ implies self.lookup(other)
                        == old(self).lookup(other) by {
                        if old(self).contains(other) {
                            let w = choose|i: int|
                                0 <= i < old(self).names().len() && #[trigger] old(self).names()[i]
                                    == other;
                            assert(self.names()[w] == other);
                            assert(self.values()[w] == old(self).values()[w]);
                        }
                        if self.contains(other) {
                            let w = choose|i: int|
                                0 <= i < self.names().len() && #[trigger] self.names()[i] == other;
                            assert(w != last);
                            assert(old(self).names()[w] == other);
                        }
                    }
                }
            },
        }
    }

    /// The value given for `name`, if any.
    pub fn get(&self, name: &str) -> (value: Option<&String>)
        ensures
            match value {
                Some(v) => self.lookup(name@) == Some(v@),
                None => self.lookup(name@).is_none(),
            },
    {
        proof {
            use_type_invariant(&self.values);
            self.values.lemma_shape();
        }
        match self.values.find(name) {
            Some(at) => {
                assert(self.names()[at as int] == name@);
                Some(self.values.value_at(at))
            },
            None => None,
        }
    }
}

/// What a command works on: the open wallet, the known pools, and the pool
/// the front end is connected to.
pub struct CommandContext {
    pub wallet: Option<KeyVault>,
    pub pools: PoolRegistry,
    pub connected_pool: Option<String>,
}

impl CommandContext {
    /// A context without a wallet and without pools.
    pub fn new() -> (ctx: Self)
        ensures
            ctx.wallet.is_none(),
            ctx.connected_pool.is_none(),
            ctx.pools.aliases() == Seq::<Seq<char>>::empty(),
    {
        CommandContext { wallet: None, pools: PoolRegistry::new(), connected_pool: None }
    }

    /// The pool the context is connected to, where that pool is known and
    /// open.
    pub open spec fn connected(&self) -> Option<Seq<char>> {
        match self.connected_pool {
            Some(alias) => if self.pools.contains(alias@) && self.pools.state_of(alias@)
                == PoolState::Open {
                Some(alias@)
            } else {
                None
            },
            None => None,
        }
    }

    /// The configuration of the connected pool; `NoPool` where no pool is
    /// connected, or the connected pool is unknown or not open.
    pub fn ensure_connected_pool(&self) -> (pool: Result<&PoolConfig, CommandError>)
        ensures
            match pool {
                Ok(config) => self.connected() matches Some(alias) && *config
                    == self.pools.config_of(alias) && config.number_read_nodes >= 1,
                Err(e) => self.connected().is_none() && e == CommandError::NoPool,
            },
    {
        match &self.connected_pool {
            None => Err(CommandError::NoPool),
            Some(alias) => {
                match self.pools.state(alias.as_str()) {
                    Some(PoolState::Open) => match self.pools.config(alias.as_str()) {
                        Some(config) => Ok(config),
                        None => Err(CommandError::NoPool),
                    },
                    _ => Err(CommandError::NoPool),
                }
            },
        }
    }
}

/// The value of the required parameter `name`.
pub fn get_str_param<'a>(name: &'static str, params: &'a CommandParams) -> (value: Result<
    &'a String,
    CommandError,
>)
    ensures
        match value {
            Ok(v) => params.lookup(name@) == Some(v@),
            Err(e) => params.lookup(name@).is_none() && e == CommandError::MissingParameter(name),
        },
{
    match params.get(name) {
        Some(v) => Ok(v),
        None => Err(CommandError::MissingParameter(name)),
    }
}

/// The value of the optional parameter `name`.
pub fn get_opt_str_param<'a>(name: &'static str, params: &'a CommandParams) -> (value: Option<
    &'a String,
>)
    ensures
        match value {
            Some(v) => params.lookup(name@) == Some(v@),
            None => params.lookup(name@).is_none(),
        },
{
    params.get(name)
}

/// A decimal digit.
pub open spec fn is_digit(c: char) -> bool {
    '0' <= c <= '9'
}

/// The number that a run of decimal digits writes.
pub open spec fn decimal(digits: Seq<char>) -> nat
    decreases digits.len(),
{
    if digits.len() == 0 {
        0
    } else {
        decimal(digits.drop_last()) * 10 + (digits.last() as u8 - 0x30) as nat
    }
}

/// The text without one leading plus sign.
pub open spec fn unsigned_part(text: Seq<char>) -> Seq<char> {
    if text.len() > 0 && text[0] == '+' {
        text.skip(1)
    } else {
        text
    }
}

pub open spec fn all_digits(digits: Seq<char>) -> bool {
    forall|i: int| 0 <= i < digits.len() ==> is_digit(#[trigger] digits[i])
}

/// The unsigned 64-bit integer that a text writes: decimal digits, at least
/// one, after at most one plus sign, and a value that fits.
pub open spec fn parsed_u64(text: Seq<char>) -> Option<u64> {
    let digits = unsigned_part(text);
    if digits.len() == 0 || !all_digits(digits) || decimal(digits) > u64::MAX {
        None
    } else {
        Some(decimal(digits) as u64)
    }
}

proof fn lemma_decimal_grows(digits: Seq<char>, upto: int)
    requires
        0 <= upto <= digits.len(),
    ensures
        decimal(digits.take(upto)) <= decimal(digits),
    decreases digits.len() - upto,
{
    if upto == digits.len() {
        assert(digits.take(upto) =~= digits);
    } else {
        lemma_decimal_grows(digits, upto + 1);
        assert(digits.take(upto + 1).drop_last() =~= digits.take(upto));
    }
}

/// Reads an unsigned 64-bit integer.
pub fn parse_u64(text: &str) -> (value: Option<u64>)
    ensures
        value == parsed_u64(text@),
{
    let ghost digits = unsigned_part(text@);
    let bytes = match ascii_bytes(text) {
        Some(b) => b,
        None => {
            proof {
                let i = choose|i: int|
                    0 <= i < text@.len() && !('\0' <= #[trigger] text@[i] <= '\u{7f}');
                if text@.len() > 0 && text@[0] == '+' {
                    assert(digits[i - 1] == text@[i]);
                    assert(!is_digit(digits[i - 1]));
                } else {
                    assert(!is_digit(digits[i]));
                }
            }
            return None;
        },
    };
    let start: usize = if bytes.len() > 0 && bytes[0] == 0x2b {
        1
    } else {
        0
    };
    proof {
        if bytes@.len() > 0 {
            assert(bytes@[0] == text@[0] as u8);
            assert('\0' <= text@[0] <= '\u{7f}');
        }
        assert(digits.len() == bytes@.len() - start);
    }
    if start == bytes.len() {
        return None;
    }
    let mut acc: u64 = 0;
    let mut i: usize = start;
    proof {
        assert(digits.take(0).len() == 0);
    }
    while i < bytes.len()
        invariant
            start <= i <= bytes.len(),
            start <= 1,
            bytes@.len() == text@.len(),
            is_ascii_chars(text@),
            digits == unsigned_part(text@),
            digits.len() == bytes@.len() - start,
            forall|j: int| 0 <= j < bytes@.len() ==> #[trigger] bytes@[j] == text@[j] as u8,
            forall|j: int| 0 <= j < digits.len() ==> digits[j] == text@[j + start],
            all_digits(digits.take(i - start)),
            acc == decimal(digits.take(i - start)),
        decreases bytes.len() - i,
    {
        let b: u8 = bytes[i];
        proof {
            let c = text@[i as int];
            assert(bytes@[i as int] == c as u8);
            assert('\0' <= c <= '\u{7f}');
            assert(digits[i - start] == c);
            assert(digits.take(i - start + 1).drop_last() =~= digits.take(i - start));
            assert(digits.take(i - start + 1).last() == c);
        }
        if b < 0x30 || b > 0x39 {
            proof {
                assert(!is_digit(digits[i - start]));
            }
            return None;
        }
        let digit: u64 = (b - 0x30) as u64;
        if acc > (u64::MAX - digit) / 10 {
            proof {
                lemma_decimal_grows(digits, i - start + 1);
            }
            return None;
        }
        acc = acc * 10 + digit;
        proof {
            assert forall|j: int| 0 <= j < digits.take(i - start + 1).len() implies is_digit(
                #[trigger] digits.take(i - start + 1)[j],
            ) by {
                if j < i - start {
                    assert(digits.take(i - start)[j] == digits[j]);
                }
            }
        }
        i += 1;
    }
    proof {
        assert(digits.take(digits.len() as int) =~= digits);
    }
    Some(acc)
}

/// The unsigned integer given as the parameter `name`; `InvalidParameter`
/// where the text, or the empty text where none was given, is no such
/// integer.
pub fn get_u64_param(name: &'static str, params: &CommandParams) -> (value: Result<
    u64,
    CommandError,
>)
    ensures
        match value {
            Ok(v) => params.lookup(name@) matches Some(text) && parsed_u64(text) == Some(v),
            Err(e) => e == CommandError::InvalidParameter(name) && match params.lookup(name@) {
                Some(text) => parsed_u64(text).is_none(),
                None => true,
            },
        },
{
    match params.get(name) {
        None => Err(CommandError::InvalidParameter(name)),
        Some(text) => match parse_u64(text.as_str()) {
            Some(v) => Ok(v),
            None => Err(CommandError::InvalidParameter(name)),
        },
    }
}

/// The account number and the sequence that a response about an account
/// carries.
///
/// Fails with `NoAccount` where the response says that there is no such
/// account, and with `UnexpectedResponse` where the response is about
/// something else.
pub fn get_base_account_number_and_sequence(response: &Response) -> (numbers: Result<
    (u64, u64),
    CommandError,
>)
    ensures
        match *response {
            Response::Account(a) => numbers == Ok::<(u64, u64), CommandError>(
                (a.account_number, a.sequence),
            ),
            Response::AccountReply(Some(a)) => numbers == Ok::<(u64, u64), CommandError>(
                (a.account_number, a.sequence),
            ),
            Response::AccountReply(None) => numbers == Err::<(u64, u64), CommandError>(
                CommandError::NoAccount,
            ),
            _ => numbers == Err::<(u64, u64), CommandError>(CommandError::UnexpectedResponse),
        },
{
    match response {
        Response::Account(a) => Ok((a.account_number, a.sequence)),
        Response::AccountReply(Some(a)) => Ok((a.account_number, a.sequence)),
        Response::AccountReply(None) => Err(CommandError::NoAccount),
        _ => Err(CommandError::UnexpectedResponse),
    }
}

} // verus!
