//! The installer's errors and what the client is shown of them.
use crate::i18n::{
    decode, decoded_code, decoded_params, encode, encoded, slice_pairs, Params,
};
use crate::text::{has_prefix, starts_with};
use vstd::prelude::*;

verus! {

/// What an error is about.
#[derive(Debug, Clone, Copy, PartialEq, Eq, Structural)]
pub enum ErrorKind {
    DiskOperation,
    IsoExtraction,
    BootloaderConfig,
    PermissionDenied,
    CommandExecution,
    InvalidInput,
    Io,
    JsonParse,
    ImageOperation,
    InitramfsBuild,
    Network,
}

/// An error of the installer, with its message.
#[derive(Debug)]
pub enum InstallerError {
    DiskOperation(String),
    IsoExtraction(String),
    BootloaderConfig(String),
    PermissionDenied(String),
    CommandExecution(String),
    InvalidInput(String),
    Io(String),
    JsonParse(String),
    ImageOperation(String),
    InitramfsBuild(String),
    Network(String),
}

/// What the client is told of an error: a code to translate, and its parameters.
#[derive(Debug)]
pub struct ClientError {
    pub code: String,
    pub params: Params,
}

/// The message carries a code of its own.
pub open spec fn is_coded(raw: Seq<char>) -> bool {
    has_prefix(raw, "ERR_"@) || has_prefix(raw, "progress."@)
}

/// The code that the client is shown for a message.
pub open spec fn client_code(raw: Seq<char>) -> Seq<char> {
    if is_coded(raw) {
        decoded_code(raw)
    } else {
        "ERR_GENERIC"@
    }
}

/// The parameters that the client is shown for a message.
pub open spec fn client_params(raw: Seq<char>) -> Map<Seq<char>, Seq<char>> {
    if is_coded(raw) {
        decoded_params(raw)
    } else {
        Map::<Seq<char>, Seq<char>>::empty().insert("detail"@, raw)
    }
}

/// What `{:?}` writes for a text: the text in double quotes, with escapes.
pub uninterp spec fn debug_quoted(s: Seq<char>) -> Seq<char>;

/// The `Debug` formatting of `str`, which the standard library defines over its
/// tables of printable characters: the result depends on the text alone.
#[verifier::external_body]
pub(crate) fn debug_text(s: &str) -> (r: String)
    ensures
        r@ == debug_quoted(s@),
{
    format!("{:?}", s)
}

/// What `{:?}` writes between the braces for named values.
pub open spec fn debug_pairs(ps: Seq<(Seq<char>, Seq<char>)>) -> Seq<char>
    decreases ps.len(),
{
    if ps.len() == 0 {
        Seq::empty()
    } else {
        debug_pairs(ps.drop_last()) + (if ps.len() == 1 {
            ""@
        } else {
            ", "@
        }) + debug_quoted(ps.last().0) + ": "@ + debug_quoted(ps.last().1)
    }
}

/// What is written for a code with parameters.
pub open spec fn error_text(code: Seq<char>, ps: Seq<(Seq<char>, Seq<char>)>) -> Seq<char> {
    if ps.len() == 0 {
        code
    } else {
        code + "|{"@ + debug_pairs(ps) + "}"@
    }
}

/// What is written for an error whose message carries no code.
pub open spec fn generic_text(raw: Seq<char>) -> Seq<char> {
    error_text("ERR_GENERIC"@, seq![("detail"@, raw)])
}

/// `t` is what is written for an error with the message `raw`. Where the
/// message carries no code the text is one, otherwise the order of the
/// parameters is left open.
pub open spec fn written_as(raw: Seq<char>, t: Seq<char>) -> bool {
    if is_coded(raw) {
        exists|ps: Seq<(Seq<char>, Seq<char>)>|
            #![trigger crate::i18n::pairs_map(ps)]
            crate::i18n::distinct_names(ps) && crate::i18n::pairs_map(ps) == client_params(raw) && t
                == error_text(client_code(raw), ps)
    } else {
        t == generic_text(raw)
    }
}

impl ClientError {
    /// The error as one line of text.
    pub fn to_string(&self) -> (r: String)
        ensures
            r@ == error_text(self.code@, self.params.pairs()),
    {
        let mut r: String = self.code.clone();
        if self.params.is_empty() {
            return r;
        }
        r.append("|{");
        let entries = self.params.entries();
        let ghost ps = self.params.pairs();
        let mut i: usize = 0;
        proof {
            reveal_strlit("");
            assert(r@ =~= self.code@ + "|{"@ + debug_pairs(ps.take(0)));
        }
        while i < entries.len()
            invariant
                ps == crate::i18n::pair_texts(entries@),
                i <= entries@.len(),
                r@ == self.code@ + "|{"@ + debug_pairs(ps.take(i as int)),
            decreases entries@.len() - i,
        {
            assert(ps.take(i + 1).drop_last() =~= ps.take(i as int));
            assert(ps.take(i + 1).last() == (entries@[i as int].0@, entries@[i as int].1@));
            if i > 0 {
                r.append(", ");
            }
            let k = debug_text(entries[i].0.as_str());
            let v = debug_text(entries[i].1.as_str());
            r.append(k.as_str());
            r.append(": ");
            r.append(v.as_str());
            proof {
                reveal_strlit("");
                assert(r@ =~= self.code@ + "|{"@ + debug_pairs(ps.take(i + 1)));
            }
            i = i + 1;
        }
        assert(ps.take(i as int) =~= ps);
        r.append("}");
        r
    }
}

impl View for InstallerError {
    type V = (ErrorKind, Seq<char>);

    open spec fn view(&self) -> (ErrorKind, Seq<char>) {
        match *self {
            InstallerError::DiskOperation(m) => (ErrorKind::DiskOperation, m@),
            InstallerError::IsoExtraction(m) => (ErrorKind::IsoExtraction, m@),
            InstallerError::BootloaderConfig(m) => (ErrorKind::BootloaderConfig, m@),
            InstallerError::PermissionDenied(m) => (ErrorKind::PermissionDenied, m@),
            InstallerError::CommandExecution(m) => (ErrorKind::CommandExecution, m@),
            InstallerError::InvalidInput(m) => (ErrorKind::InvalidInput, m@),
            InstallerError::Io(m) => (ErrorKind::Io, m@),
            InstallerError::JsonParse(m) => (ErrorKind::JsonParse, m@),
            InstallerError::ImageOperation(m) => (ErrorKind::ImageOperation, m@),
            InstallerError::InitramfsBuild(m) => (ErrorKind::InitramfsBuild, m@),
            InstallerError::Network(m) => (ErrorKind::Network, m@),
        }
    }
}

impl InstallerError {
    /// An error of the kind `kind` with the message `message`.
    pub fn of(kind: ErrorKind, message: String) -> (r: InstallerError)
        ensures
            r@ == (kind, message@),
    {
        match kind {
            ErrorKind::DiskOperation => InstallerError::DiskOperation(message),
            ErrorKind::IsoExtraction => InstallerError::IsoExtraction(message),
            ErrorKind::BootloaderConfig => InstallerError::BootloaderConfig(message),
            ErrorKind::PermissionDenied => InstallerError::PermissionDenied(message),
            ErrorKind::CommandExecution => InstallerError::CommandExecution(message),
            ErrorKind::InvalidInput => InstallerError::InvalidInput(message),
            ErrorKind::Io => InstallerError::Io(message),
            ErrorKind::JsonParse => InstallerError::JsonParse(message),
            ErrorKind::ImageOperation => InstallerError::ImageOperation(message),
            ErrorKind::InitramfsBuild => InstallerError::InitramfsBuild(message),
            ErrorKind::Network => InstallerError::Network(message),
        }
    }

    /// An error of the kind `kind` whose message is the code `code` with `params`.
    pub fn coded(kind: ErrorKind, code: &str, params: &[(&str, &str)]) -> (r: InstallerError)
        ensures
            r@ == (kind, encoded(code@, slice_pairs(params@))),
    {
        InstallerError::of(kind, encode(code, params))
    }

    /// What the error is about.
    pub fn kind(&self) -> (r: ErrorKind)
        ensures
            r == self@.0,
    {
        match self {
            InstallerError::DiskOperation(_) => ErrorKind::DiskOperation,
            InstallerError::IsoExtraction(_) => ErrorKind::IsoExtraction,
            InstallerError::BootloaderConfig(_) => ErrorKind::BootloaderConfig,
            InstallerError::PermissionDenied(_) => ErrorKind::PermissionDenied,
            InstallerError::CommandExecution(_) => ErrorKind::CommandExecution,
            InstallerError::InvalidInput(_) => ErrorKind::InvalidInput,
            InstallerError::Io(_) => ErrorKind::Io,
            InstallerError::JsonParse(_) => ErrorKind::JsonParse,
            InstallerError::ImageOperation(_) => ErrorKind::ImageOperation,
            InstallerError::InitramfsBuild(_) => ErrorKind::InitramfsBuild,
            InstallerError::Network(_) => ErrorKind::Network,
        }
    }

    /// The message of the error.
    pub fn message(&self) -> (r: &String)
        ensures
            r@ == self@.1,
    {
        match self {
            InstallerError::DiskOperation(m) => m,
            InstallerError::IsoExtraction(m) => m,
            InstallerError::BootloaderConfig(m) => m,
            InstallerError::PermissionDenied(m) => m,
            InstallerError::CommandExecution(m) => m,
            InstallerError::InvalidInput(m) => m,
            InstallerError::Io(m) => m,
            InstallerError::JsonParse(m) => m,
            InstallerError::ImageOperation(m) => m,
            InstallerError::InitramfsBuild(m) => m,
            InstallerError::Network(m) => m,
        }
    }

    /// What the client is told of this error: the code in its message, or the
    /// whole message as the detail of a generic error.
    pub fn to_client_error(&self) -> (r: ClientError)
        ensures
            r.code@ == client_code(self@.1),
            r.params@ == client_params(self@.1),
            !is_coded(self@.1) ==> r.params.pairs() == seq![("detail"@, self@.1)],
    {
        let raw = self.message();
        if starts_with(raw.as_str(), "ERR_") || starts_with(raw.as_str(), "progress.") {
            let (code, params) = decode(raw.as_str());
            ClientError { code, params }
        } else {
            let params = Params::new().with("detail".to_owned(), raw.clone());
            assert(params.pairs() =~= seq![("detail"@, raw@)]);
            ClientError { code: "ERR_GENERIC".to_owned(), params }
        }
    }

    /// The error as one line of text: its code, and its parameters in braces.
    pub fn to_string(&self) -> (r: String)
        ensures
            written_as(self@.1, r@),
    {
        let c = self.to_client_error();
        let r = c.to_string();
        let _entries = c.params.entries();
        proof {
            assert(crate::i18n::pairs_map(c.params.pairs()) == client_params(self@.1));
        }
        r
    }
}

/// What the client is told of a coded error is the code and the parameters
/// that the error was made with.
pub proof fn coded_error_reaches_client(code: Seq<char>, ps: Seq<(Seq<char>, Seq<char>)>)
    requires
        crate::i18n::encodable(code, ps),
        is_coded(code),
    ensures
        client_code(encoded(code, ps)) == code,
        client_params(encoded(code, ps)) == crate::i18n::pairs_map(ps),
{
    crate::i18n::decode_undoes_encode(code, ps);
    let raw = encoded(code, ps);
    if has_prefix(code, "ERR_"@) {
        assert(raw.take("ERR_"@.len() as int) =~= code.take("ERR_"@.len() as int));
    } else {
        assert(raw.take("progress."@.len() as int) =~= code.take("progress."@.len() as int));
    }
}

/// A message that begins with `ERR_` or with `progress.` is shown with its own
/// code; any other is shown as a generic error, with the whole message as its
/// detail and nothing else.
pub proof fn plain_messages_are_shown_as_generic_errors(raw: Seq<char>, rest: Seq<char>)
    ensures
        is_coded("ERR_"@ + rest),
        is_coded("progress."@ + rest),
        !is_coded(raw) ==> client_code(raw) == "ERR_GENERIC"@,
        !is_coded(raw) ==> client_params(raw).dom() == set!["detail"@] && client_params(raw)["detail"@]
            == raw,
        raw.len() < 4 ==> !is_coded(raw),
        raw.len() > 0 && raw[0] != 'E' && raw[0] != 'p' ==> !is_coded(raw),
        !is_coded(raw) ==> generic_text(raw) == "ERR_GENERIC"@ + "|{"@ + (Seq::<char>::empty() + ""@
            + debug_quoted("detail"@) + ": "@ + debug_quoted(raw)) + "}"@,
{
    reveal_strlit("ERR_");
    reveal_strlit("progress.");
    assert(("ERR_"@ + rest).take(4) =~= "ERR_"@);
    assert(("progress."@ + rest).take(9) =~= "progress."@);
    if raw.len() >= 4 && raw.take(4) == "ERR_"@ {
        assert(raw.take(4)[0] == 'E');
    }
    if raw.len() >= 9 && raw.take(9) == "progress."@ {
        assert(raw.take(9)[0] == 'p');
    }
    if !is_coded(raw) {
        assert(client_params(raw).dom() =~= set!["detail"@]);
    }
    let ps = seq![("detail"@, raw)];
    reveal_with_fuel(debug_pairs, 2);
    assert(ps.drop_last() =~= Seq::<(Seq<char>, Seq<char>)>::empty());
}

/// What is seen of an error is its kind and its message.
pub proof fn errors_are_seen_as_they_are(m: String)
    ensures
        InstallerError::DiskOperation(m)@ == (ErrorKind::DiskOperation, m@),
        InstallerError::IsoExtraction(m)@ == (ErrorKind::IsoExtraction, m@),
        InstallerError::BootloaderConfig(m)@ == (ErrorKind::BootloaderConfig, m@),
        InstallerError::PermissionDenied(m)@ == (ErrorKind::PermissionDenied, m@),
        InstallerError::CommandExecution(m)@ == (ErrorKind::CommandExecution, m@),
        InstallerError::InvalidInput(m)@ == (ErrorKind::InvalidInput, m@),
        InstallerError::Io(m)@ == (ErrorKind::Io, m@),
        InstallerError::JsonParse(m)@ == (ErrorKind::JsonParse, m@),
        InstallerError::ImageOperation(m)@ == (ErrorKind::ImageOperation, m@),
        InstallerError::InitramfsBuild(m)@ == (ErrorKind::InitramfsBuild, m@),
        InstallerError::Network(m)@ == (ErrorKind::Network, m@),
{
}

proof fn one_pair_by_its_map(ps: Seq<(Seq<char>, Seq<char>)>, name: Seq<char>, value: Seq<char>)
    requires
        crate::i18n::distinct_names(ps),
        crate::i18n::pairs_map(ps) == Map::<Seq<char>, Seq<char>>::empty().insert(name, value),
    ensures
        ps == seq![(name, value)],
{
    let m = crate::i18n::pairs_map(ps);
    assert(m.contains_key(name));
    assert(m[name] == value);
    if ps.len() == 0 {
        assert(!m.contains_key(name));
    }
    pairs_are_in_the_map(ps);
    assert forall|i: int| 0 <= i < ps.len() implies (#[trigger] ps[i]) == (name, value) by {
        assert(m.contains_key(ps[i].0));
    }
    if ps.len() > 1 {
        assert(ps[0].0 != ps[1].0);
    }
    assert(ps =~= seq![(name, value)]);
}

proof fn pairs_are_in_the_map(ps: Seq<(Seq<char>, Seq<char>)>)
    requires
        crate::i18n::distinct_names(ps),
    ensures
        forall|i: int|
            0 <= i < ps.len() ==> crate::i18n::pairs_map(ps).contains_key((#[trigger] ps[i]).0)
                && crate::i18n::pairs_map(ps)[ps[i].0] == ps[i].1,
    decreases ps.len(),
{
    if ps.len() > 0 {
        let front = ps.drop_last();
        assert forall|i: int, j: int| 0 <= i < j < front.len() implies #[trigger] front[i].0
            != #[trigger] front[j].0 by {
            assert(ps[i].0 != ps[j].0);
        }
        pairs_are_in_the_map(front);
        assert forall|i: int| 0 <= i < ps.len() implies crate::i18n::pairs_map(ps).contains_key(
            (#[trigger] ps[i]).0,
        ) && crate::i18n::pairs_map(ps)[ps[i].0] == ps[i].1 by {
            if i < front.len() {
                assert(front[i] == ps[i]);
                assert(ps[i].0 != ps[ps.len() - 1].0);
            }
        }
    }
}

/// An error with a code and one parameter is written as the code, a bar and, in
/// braces, the name and the value of the parameter in double quotes with a colon
/// and a space between them.
pub proof fn coded_errors_are_written_with_their_parameter(
    code: Seq<char>,
    name: Seq<char>,
    value: Seq<char>,
    t: Seq<char>,
)
    requires
        is_coded(code),
        crate::i18n::encodable(code, seq![(name, value)]),
        written_as(encoded(code, seq![(name, value)]), t),
    ensures
        t == code + "|{"@ + (debug_quoted(name) + ": "@ + debug_quoted(value)) + "}"@,
{
    let one = seq![(name, value)];
    let raw = encoded(code, one);
    coded_error_reaches_client(code, one);
    assert(is_coded(raw)) by {
        if has_prefix(code, "ERR_"@) {
            assert(raw.take("ERR_"@.len() as int) =~= code.take("ERR_"@.len() as int));
        } else {
            assert(raw.take("progress."@.len() as int) =~= code.take("progress."@.len() as int));
        }
    }
    assert(one.drop_last() =~= Seq::<(Seq<char>, Seq<char>)>::empty());
    reveal_with_fuel(crate::i18n::pairs_map, 2);
    let ps = choose|ps: Seq<(Seq<char>, Seq<char>)>|
        #![trigger crate::i18n::pairs_map(ps)]
        crate::i18n::distinct_names(ps) && crate::i18n::pairs_map(ps) == client_params(raw) && t
            == error_text(client_code(raw), ps);
    one_pair_by_its_map(ps, name, value);
    reveal_strlit("");
    reveal_with_fuel(debug_pairs, 2);
    assert(debug_pairs(one) =~= debug_quoted(name) + ": "@ + debug_quoted(value));
}

/// Without parameters an error is written as its code. Several parameters stand
/// in the braces in their order, with a comma and a space between two of them.
pub proof fn parameters_are_written_in_their_order(
    code: Seq<char>,
    ps: Seq<(Seq<char>, Seq<char>)>,
    name: Seq<char>,
    value: Seq<char>,
)
    ensures
        error_text(code, Seq::empty()) == code,
        ps.len() > 0 ==> exists|inner: Seq<char>| #[trigger]
            (code + "|{"@ + inner) + "}"@ == error_text(code, ps) && error_text(
                code,
                ps.push((name, value)),
            ) == (code + "|{"@ + inner) + ", "@ + debug_quoted(name) + ": "@ + debug_quoted(value)
                + "}"@,
{
    if ps.len() > 0 {
        let inner = debug_pairs(ps);
        assert(ps.push((name, value)).drop_last() =~= ps);
        assert((code + "|{"@ + inner) + "}"@ == error_text(code, ps));
        assert(error_text(code, ps.push((name, value))) =~= (code + "|{"@ + inner) + ", "@
            + debug_quoted(name) + ": "@ + debug_quoted(value) + "}"@);
    }
}

} // verus!
