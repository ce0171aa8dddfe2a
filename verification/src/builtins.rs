use vstd::prelude::*;

verus! {

/// A declared constraint on how many arguments a native procedure accepts.
#[derive(Clone, Copy, Debug, PartialEq, Eq, Structural)]
pub enum Arity {
    Exact(u16),
    Min(u16),
    Range(u16, u16),
}

impl Arity {
    /// Whether an argument count satisfies the constraint.
    pub open spec fn matches_spec(self, n: nat) -> bool {
        match self {
            Arity::Exact(k) => n == k,
            Arity::Min(k) => n >= k,
            Arity::Range(lo, hi) => lo <= n && n <= hi,
        }
    }

    pub fn matches(self, n: usize) -> (r: bool)
        ensures
            r == self.matches_spec(n as nat),
    {
        match self {
            Arity::Exact(k) => n == k as usize,
            Arity::Min(k) => n >= k as usize,
            Arity::Range(lo, hi) => lo as usize <= n && n <= hi as usize,
        }
    }
}

/// The closed set of native procedures. Every registry entry names one of
/// these, so dispatch is an exhaustive match and a newly added procedure
/// must be handled everywhere.
#[derive(Clone, Copy, Debug, PartialEq, Eq, Structural)]
pub enum Builtin {
    NumAdd,
    NumMul,
    NumSub,
    NumDiv,
    CmpLt,
    CmpGt,
    CmpLe,
    CmpGe,
    EqVals,
    NeVals,
    StrCat,
    ListNew,
    First,
    Second,
    Third,
    Fourth,
    Fifth,
    Sixth,
    Seventh,
    Eighth,
    Ninth,
    Tenth,
    Nth,
    Rest,
    Cons,
    RevCons,
    IsAtom,
    IsList,
    IsNil,
    IsNumber,
    IsString,
    IsSymbol,
    IsFunction,
    IsKeyword,
    IsHashmap,
    Apply,
    MapList,
    Append,
    Repr,
    Len,
    Inc,
    Dec,
    Collect,
    Format,
    Join,
    HashmapNew,
    Assoc,
    Dissoc,
    GetKey,
    Update,
    HasKey,
    MapKeys,
    Symbol,
    MakeStruct,
    IndexStruct,
    AssertStruct,
    Assert,
    Keyword,
    NameInternNumber,
    SymbolFromInternNumber,
    BoxNew,
    SetBox,
    SwapBox,
    Deref,
    Reverse,
    StringToChars,
    StringStartsWith,
    StringAppendChar,
    CharToString,
    CharListToString,
    CharsSlice,
}

/// The declared arity of each native procedure.
pub open spec fn builtin_arity(b: Builtin) -> Arity {
    match b {
        Builtin::NumAdd => Arity::Min(0),
        Builtin::NumMul => Arity::Min(0),
        Builtin::NumSub => Arity::Min(0),
        Builtin::NumDiv => Arity::Min(0),
        Builtin::CmpLt => Arity::Min(1),
        Builtin::CmpGt => Arity::Min(1),
        Builtin::CmpLe => Arity::Min(1),
        Builtin::CmpGe => Arity::Min(1),
        Builtin::EqVals => Arity::Min(1),
        Builtin::NeVals => Arity::Min(1),
        Builtin::StrCat => Arity::Min(0),
        Builtin::ListNew => Arity::Min(0),
        Builtin::First => Arity::Exact(1),
        Builtin::Second => Arity::Exact(1),
        Builtin::Third => Arity::Exact(1),
        Builtin::Fourth => Arity::Exact(1),
        Builtin::Fifth => Arity::Exact(1),
        Builtin::Sixth => Arity::Exact(1),
        Builtin::Seventh => Arity::Exact(1),
        Builtin::Eighth => Arity::Exact(1),
        Builtin::Ninth => Arity::Exact(1),
        Builtin::Tenth => Arity::Exact(1),
        Builtin::Nth => Arity::Exact(2),
        Builtin::Rest => Arity::Exact(1),
        Builtin::Cons => Arity::Exact(2),
        Builtin::RevCons => Arity::Exact(2),
        Builtin::IsAtom => Arity::Exact(1),
        Builtin::IsList => Arity::Exact(1),
        Builtin::IsNil => Arity::Exact(1),
        Builtin::IsNumber => Arity::Exact(1),
        Builtin::IsString => Arity::Exact(1),
        Builtin::IsSymbol => Arity::Exact(1),
        Builtin::IsFunction => Arity::Exact(1),
        Builtin::IsKeyword => Arity::Exact(1),
        Builtin::IsHashmap => Arity::Exact(1),
        Builtin::Apply => Arity::Min(2),
        Builtin::MapList => Arity::Exact(2),
        Builtin::Append => Arity::Min(0),
        Builtin::Repr => Arity::Min(0),
        Builtin::Len => Arity::Exact(1),
        Builtin::Inc => Arity::Exact(1),
        Builtin::Dec => Arity::Exact(1),
        Builtin::Collect => Arity::Exact(1),
        Builtin::Format => Arity::Min(1),
        Builtin::Join => Arity::Min(2),
        Builtin::HashmapNew => Arity::Min(0),
        Builtin::Assoc => Arity::Min(1),
        Builtin::Dissoc => Arity::Min(1),
        Builtin::GetKey => Arity::Exact(2),
        Builtin::Update => Arity::Min(3),
        Builtin::HasKey => Arity::Exact(2),
        Builtin::MapKeys => Arity::Exact(1),
        Builtin::Symbol => Arity::Exact(1),
        Builtin::MakeStruct => Arity::Min(1),
        Builtin::IndexStruct => Arity::Exact(3),
        Builtin::AssertStruct => Arity::Exact(2),
        Builtin::Assert => Arity::Range(1, 3),
        Builtin::Keyword => Arity::Exact(1),
        Builtin::NameInternNumber => Arity::Exact(1),
        Builtin::SymbolFromInternNumber => Arity::Exact(1),
        Builtin::BoxNew => Arity::Exact(1),
        Builtin::SetBox => Arity::Exact(2),
        Builtin::SwapBox => Arity::Min(2),
        Builtin::Deref => Arity::Exact(1),
        Builtin::Reverse => Arity::Exact(1),
        Builtin::StringToChars => Arity::Exact(1),
        Builtin::StringStartsWith => Arity::Exact(2),
        Builtin::StringAppendChar => Arity::Exact(2),
        Builtin::CharToString => Arity::Exact(1),
        Builtin::CharListToString => Arity::Exact(1),
        Builtin::CharsSlice => Arity::Range(2, 3),
    }
}

/// Executable twin of `builtin_arity`.
pub fn arity_of(b: Builtin) -> (a: Arity)
    ensures
        a == builtin_arity(b),
{
    match b {
        Builtin::NumAdd => Arity::Min(0),
        Builtin::NumMul => Arity::Min(0),
        Builtin::NumSub => Arity::Min(0),
        Builtin::NumDiv => Arity::Min(0),
        Builtin::CmpLt => Arity::Min(1),
        Builtin::CmpGt => Arity::Min(1),
        Builtin::CmpLe => Arity::Min(1),
        Builtin::CmpGe => Arity::Min(1),
        Builtin::EqVals => Arity::Min(1),
        Builtin::NeVals => Arity::Min(1),
        Builtin::StrCat => Arity::Min(0),
        Builtin::ListNew => Arity::Min(0),
        Builtin::First => Arity::Exact(1),
        Builtin::Second => Arity::Exact(1),
        Builtin::Third => Arity::Exact(1),
        Builtin::Fourth => Arity::Exact(1),
        Builtin::Fifth => Arity::Exact(1),
        Builtin::Sixth => Arity::Exact(1),
        Builtin::Seventh => Arity::Exact(1),
        Builtin::Eighth => Arity::Exact(1),
        Builtin::Ninth => Arity::Exact(1),
        Builtin::Tenth => Arity::Exact(1),
        Builtin::Nth => Arity::Exact(2),
        Builtin::Rest => Arity::Exact(1),
        Builtin::Cons => Arity::Exact(2),
        Builtin::RevCons => Arity::Exact(2),
        Builtin::IsAtom => Arity::Exact(1),
        Builtin::IsList => Arity::Exact(1),
        Builtin::IsNil => Arity::Exact(1),
        Builtin::IsNumber => Arity::Exact(1),
        Builtin::IsString => Arity::Exact(1),
        Builtin::IsSymbol => Arity::Exact(1),
        Builtin::IsFunction => Arity::Exact(1),
        Builtin::IsKeyword => Arity::Exact(1),
        Builtin::IsHashmap => Arity::Exact(1),
        Builtin::Apply => Arity::Min(2),
        Builtin::MapList => Arity::Exact(2),
        Builtin::Append => Arity::Min(0),
        Builtin::Repr => Arity::Min(0),
        Builtin::Len => Arity::Exact(1),
        Builtin::Inc => Arity::Exact(1),
        Builtin::Dec => Arity::Exact(1),
        Builtin::Collect => Arity::Exact(1),
        Builtin::Format => Arity::Min(1),
        Builtin::Join => Arity::Min(2),
        Builtin::HashmapNew => Arity::Min(0),
        Builtin::Assoc => Arity::Min(1),
        Builtin::Dissoc => Arity::Min(1),
        Builtin::GetKey => Arity::Exact(2),
        Builtin::Update => Arity::Min(3),
        Builtin::HasKey => Arity::Exact(2),
        Builtin::MapKeys => Arity::Exact(1),
        Builtin::Symbol => Arity::Exact(1),
        Builtin::MakeStruct => Arity::Min(1),
        Builtin::IndexStruct => Arity::Exact(3),
        Builtin::AssertStruct => Arity::Exact(2),
        Builtin::Assert => Arity::Range(1, 3),
        Builtin::Keyword => Arity::Exact(1),
        Builtin::NameInternNumber => Arity::Exact(1),
        Builtin::SymbolFromInternNumber => Arity::Exact(1),
        Builtin::BoxNew => Arity::Exact(1),
        Builtin::SetBox => Arity::Exact(2),
        Builtin::SwapBox => Arity::Min(2),
        Builtin::Deref => Arity::Exact(1),
        Builtin::Reverse => Arity::Exact(1),
        Builtin::StringToChars => Arity::Exact(1),
        Builtin::StringStartsWith => Arity::Exact(2),
        Builtin::StringAppendChar => Arity::Exact(2),
        Builtin::CharToString => Arity::Exact(1),
        Builtin::CharListToString => Arity::Exact(1),
        Builtin::CharsSlice => Arity::Range(2, 3),
    }
}

/// The surface name each native procedure is registered under.
pub open spec fn builtin_name_spec(b: Builtin) -> Seq<char> {
    match b {
        Builtin::NumAdd => "+"@,
        Builtin::NumMul => "*"@,
        Builtin::NumSub => "-"@,
        Builtin::NumDiv => "/"@,
        Builtin::CmpLt => "<"@,
        Builtin::CmpGt => ">"@,
        Builtin::CmpLe => "<="@,
        Builtin::CmpGe => ">="@,
        Builtin::EqVals => "=="@,
        Builtin::NeVals => "!="@,
        Builtin::StrCat => "str"@,
        Builtin::ListNew => "list"@,
        Builtin::First => "first"@,
        Builtin::Second => "second"@,
        Builtin::Third => "third"@,
        Builtin::Fourth => "fourth"@,
        Builtin::Fifth => "fifth"@,
        Builtin::Sixth => "sixth"@,
        Builtin::Seventh => "seventh"@,
        Builtin::Eighth => "eigth"@,
        Builtin::Ninth => "nineth"@,
        Builtin::Tenth => "tenth"@,
        Builtin::Nth => "nth"@,
        Builtin::Rest => "rest"@,
        Builtin::Cons => "cons"@,
        Builtin::RevCons => "rev-cons"@,
        Builtin::IsAtom => "atom?"@,
        Builtin::IsList => "list?"@,
        Builtin::IsNil => "nil?"@,
        Builtin::IsNumber => "number?"@,
        Builtin::IsString => "string?"@,
        Builtin::IsSymbol => "symbol?"@,
        Builtin::IsFunction => "function?"@,
        Builtin::IsKeyword => "keyword?"@,
        Builtin::IsHashmap => "hash-map?"@,
        Builtin::Apply => "apply"@,
        Builtin::MapList => "map"@,
        Builtin::Append => "append"@,
        Builtin::Repr => "repr"@,
        Builtin::Len => "len"@,
        Builtin::Inc => "inc"@,
        Builtin::Dec => "dec"@,
        Builtin::Collect => "collect"@,
        Builtin::Format => "format"@,
        Builtin::Join => "join"@,
        Builtin::HashmapNew => "hash-map"@,
        Builtin::Assoc => "assoc"@,
        Builtin::Dissoc => "dissoc"@,
        Builtin::GetKey => "get-key"@,
        Builtin::Update => "update"@,
        Builtin::HasKey => "has-key?"@,
        Builtin::MapKeys => "map-keys"@,
        Builtin::Symbol => "symbol"@,
        Builtin::MakeStruct => "make-struct"@,
        Builtin::IndexStruct => "index-struct"@,
        Builtin::AssertStruct => "assert-struct"@,
        Builtin::Assert => "assert"@,
        Builtin::Keyword => "keyword"@,
        Builtin::NameInternNumber => "name-intern-number"@,
        Builtin::SymbolFromInternNumber => "symbol-from-intern-number"@,
        Builtin::BoxNew => "box"@,
        Builtin::SetBox => "set-box"@,
        Builtin::SwapBox => "swap-box"@,
        Builtin::Deref => "deref"@,
        Builtin::Reverse => "reverse"@,
        Builtin::StringToChars => "string->chars"@,
        Builtin::StringStartsWith => "string/starts-with"@,
        Builtin::StringAppendChar => "string/append-char"@,
        Builtin::CharToString => "char->string"@,
        Builtin::CharListToString => "char-list->string"@,
        Builtin::CharsSlice => "chars/slice"@,
    }
}

/// Executable twin of `builtin_name_spec`.
pub fn builtin_name(b: Builtin) -> (r: String)
    ensures
        r@ == builtin_name_spec(b),
{
    let text: &str = match b {
        Builtin::NumAdd => "+",
        Builtin::NumMul => "*",
        Builtin::NumSub => "-",
        Builtin::NumDiv => "/",
        Builtin::CmpLt => "<",
        Builtin::CmpGt => ">",
        Builtin::CmpLe => "<=",
        Builtin::CmpGe => ">=",
        Builtin::EqVals => "==",
        Builtin::NeVals => "!=",
        Builtin::StrCat => "str",
        Builtin::ListNew => "list",
        Builtin::First => "first",
        Builtin::Second => "second",
        Builtin::Third => "third",
        Builtin::Fourth => "fourth",
        Builtin::Fifth => "fifth",
        Builtin::Sixth => "sixth",
        Builtin::Seventh => "seventh",
        Builtin::Eighth => "eigth",
        Builtin::Ninth => "nineth",
        Builtin::Tenth => "tenth",
        Builtin::Nth => "nth",
        Builtin::Rest => "rest",
        Builtin::Cons => "cons",
        Builtin::RevCons => "rev-cons",
        Builtin::IsAtom => "atom?",
        Builtin::IsList => "list?",
        Builtin::IsNil => "nil?",
        Builtin::IsNumber => "number?",
        Builtin::IsString => "string?",
        Builtin::IsSymbol => "symbol?",
        Builtin::IsFunction => "function?",
        Builtin::IsKeyword => "keyword?",
        Builtin::IsHashmap => "hash-map?",
        Builtin::Apply => "apply",
        Builtin::MapList => "map",
        Builtin::Append => "append",
        Builtin::Repr => "repr",
        Builtin::Len => "len",
        Builtin::Inc => "inc",
        Builtin::Dec => "dec",
        Builtin::Collect => "collect",
        Builtin::Format => "format",
        Builtin::Join => "join",
        Builtin::HashmapNew => "hash-map",
        Builtin::Assoc => "assoc",
        Builtin::Dissoc => "dissoc",
        Builtin::GetKey => "get-key",
        Builtin::Update => "update",
        Builtin::HasKey => "has-key?",
        Builtin::MapKeys => "map-keys",
        Builtin::Symbol => "symbol",
        Builtin::MakeStruct => "make-struct",
        Builtin::IndexStruct => "index-struct",
        Builtin::AssertStruct => "assert-struct",
        Builtin::Assert => "assert",
        Builtin::Keyword => "keyword",
        Builtin::NameInternNumber => "name-intern-number",
        Builtin::SymbolFromInternNumber => "symbol-from-intern-number",
        Builtin::BoxNew => "box",
        Builtin::SetBox => "set-box",
        Builtin::SwapBox => "swap-box",
        Builtin::Deref => "deref",
        Builtin::Reverse => "reverse",
        Builtin::StringToChars => "string->chars",
        Builtin::StringStartsWith => "string/starts-with",
        Builtin::StringAppendChar => "string/append-char",
        Builtin::CharToString => "char->string",
        Builtin::CharListToString => "char-list->string",
        Builtin::CharsSlice => "chars/slice",
    };
    text.to_owned()
}

} // verus!
