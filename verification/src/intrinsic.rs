//! The intrinsics: the operations that the machine has built in, each known by one name.
use vstd::prelude::*;
use vstd::string::StringExecFns;

verus! {

/// A built-in operation.
#[derive(Debug, Clone, Copy, PartialEq, Eq, Structural, PartialOrd, Ord, Hash)]
pub enum Intrinsic {
    // Arithmetic
    /// `+`
    Add,
    /// `-`
    Sub,
    /// `*`
    Mul,
    /// `/`
    Div,
    /// `%`
    Rem,
    // Comparison
    /// `=`
    Eq,
    /// `!=`
    Ne,
    /// `<`
    Lt,
    /// `<=`
    Le,
    /// `>`
    Gt,
    /// `>=`
    Ge,
    // Boolean
    /// `or`
    Or,
    /// `and`
    And,
    /// `not`
    Not,
    // Assertion
    /// `assert`
    Assert,
    // Stack shuffling
    /// `drop`
    Drop,
    /// `dupe`
    Dupe,
    /// `swap`
    Swap,
    /// `rot`
    Rot,
    // Collections
    /// `len`
    Len,
    /// `nth`
    Nth,
    /// `split`
    Split,
    /// `concat`
    Concat,
    /// `push`
    Push,
    /// `pop`
    Pop,
    /// `insert`
    Insert,
    /// `prop`
    Prop,
    /// `has`
    Has,
    /// `remove`
    Remove,
    /// `keys`
    Keys,
    /// `values`
    Values,
    // Types
    /// `cast`
    Cast,
    /// `typeof`
    TypeOf,
    // Control
    /// `lazy`
    Lazy,
    /// `if`
    If,
    /// `halt`
    Halt,
    /// `call`
    Call,
    // Scope
    /// `let`
    Let,
    /// `def`
    Def,
    /// `set`
    Assign,
    /// `get`
    Get,
    // Input, output and introspection
    /// `debug`
    Debug,
    /// `print`
    Print,
    /// `pretty`
    Pretty,
    /// `recur`
    Recur,
    /// `orelse`
    OrElse,
    /// `import`
    Import,
}

/// The intrinsic of a name, if the name is that of one.
pub open spec fn intrinsic_named(name: Seq<char>) -> Option<Intrinsic> {
    if name == "+"@ {
        Some(Intrinsic::Add)
    }     else if name == "-"@ {
        Some(Intrinsic::Sub)
    }     else if name == "*"@ {
        Some(Intrinsic::Mul)
    }     else if name == "/"@ {
        Some(Intrinsic::Div)
    }     else if name == "%"@ {
        Some(Intrinsic::Rem)
    }     else if name == "="@ {
        Some(Intrinsic::Eq)
    }     else if name == "!="@ {
        Some(Intrinsic::Ne)
    }     else if name == "<"@ {
        Some(Intrinsic::Lt)
    }     else if name == "<="@ {
        Some(Intrinsic::Le)
    }     else if name == ">"@ {
        Some(Intrinsic::Gt)
    }     else if name == ">="@ {
        Some(Intrinsic::Ge)
    }     else if name == "or"@ {
        Some(Intrinsic::Or)
    }     else if name == "and"@ {
        Some(Intrinsic::And)
    }     else if name == "not"@ {
        Some(Intrinsic::Not)
    }     else if name == "assert"@ {
        Some(Intrinsic::Assert)
    }     else if name == "drop"@ {
        Some(Intrinsic::Drop)
    }     else if name == "dupe"@ {
        Some(Intrinsic::Dupe)
    }     else if name == "swap"@ {
        Some(Intrinsic::Swap)
    }     else if name == "rot"@ {
        Some(Intrinsic::Rot)
    }     else if name == "len"@ {
        Some(Intrinsic::Len)
    }     else if name == "nth"@ {
        Some(Intrinsic::Nth)
    }     else if name == "split"@ {
        Some(Intrinsic::Split)
    }     else if name == "concat"@ {
        Some(Intrinsic::Concat)
    }     else if name == "push"@ {
        Some(Intrinsic::Push)
    }     else if name == "pop"@ {
        Some(Intrinsic::Pop)
    }     else if name == "insert"@ {
        Some(Intrinsic::Insert)
    }     else if name == "prop"@ {
        Some(Intrinsic::Prop)
    }     else if name == "has"@ {
        Some(Intrinsic::Has)
    }     else if name == "remove"@ {
        Some(Intrinsic::Remove)
    }     else if name == "keys"@ {
        Some(Intrinsic::Keys)
    }     else if name == "values"@ {
        Some(Intrinsic::Values)
    }     else if name == "cast"@ {
        Some(Intrinsic::Cast)
    }     else if name == "typeof"@ {
        Some(Intrinsic::TypeOf)
    }     else if name == "lazy"@ {
        Some(Intrinsic::Lazy)
    }     else if name == "if"@ {
        Some(Intrinsic::If)
    }     else if name == "halt"@ {
        Some(Intrinsic::Halt)
    }     else if name == "call"@ {
        Some(Intrinsic::Call)
    }     else if name == "let"@ {
        Some(Intrinsic::Let)
    }     else if name == "def"@ {
        Some(Intrinsic::Def)
    }     else if name == "set"@ {
        Some(Intrinsic::Assign)
    }     else if name == "get"@ {
        Some(Intrinsic::Get)
    }     else if name == "debug"@ {
        Some(Intrinsic::Debug)
    }     else if name == "print"@ {
        Some(Intrinsic::Print)
    }     else if name == "pretty"@ {
        Some(Intrinsic::Pretty)
    }     else if name == "recur"@ {
        Some(Intrinsic::Recur)
    }     else if name == "orelse"@ {
        Some(Intrinsic::OrElse)
    }     else if name == "import"@ {
        Some(Intrinsic::Import)
    } else {
        None
    }
}

/// Whether `name` is the text `literal`.
fn is(name: &String, literal: &str) -> (r: bool)
    ensures
        r == (name@ == literal@),
{
    *name == String::from_str(literal)
}

impl Intrinsic {
    /// The intrinsic of a name, or nothing where the name is that of none.
    pub fn from_str(name: &str) -> (r: Option<Intrinsic>)
        ensures
            r == intrinsic_named(name@),
    {
        let name = String::from_str(name);
        if is(&name, "+") {
            Some(Intrinsic::Add)
        }         else if is(&name, "-") {
            Some(Intrinsic::Sub)
        }         else if is(&name, "*") {
            Some(Intrinsic::Mul)
        }         else if is(&name, "/") {
            Some(Intrinsic::Div)
        }         else if is(&name, "%") {
            Some(Intrinsic::Rem)
        }         else if is(&name, "=") {
            Some(Intrinsic::Eq)
        }         else if is(&name, "!=") {
            Some(Intrinsic::Ne)
        }         else if is(&name, "<") {
            Some(Intrinsic::Lt)
        }         else if is(&name, "<=") {
            Some(Intrinsic::Le)
        }         else if is(&name, ">") {
            Some(Intrinsic::Gt)
        }         else if is(&name, ">=") {
            Some(Intrinsic::Ge)
        }         else if is(&name, "or") {
            Some(Intrinsic::Or)
        }         else if is(&name, "and") {
            Some(Intrinsic::And)
        }         else if is(&name, "not") {
            Some(Intrinsic::Not)
        }         else if is(&name, "assert") {
            Some(Intrinsic::Assert)
        }         else if is(&name, "drop") {
            Some(Intrinsic::Drop)
        }         else if is(&name, "dupe") {
            Some(Intrinsic::Dupe)
        }         else if is(&name, "swap") {
            Some(Intrinsic::Swap)
        }         else if is(&name, "rot") {
            Some(Intrinsic::Rot)
        }         else if is(&name, "len") {
            Some(Intrinsic::Len)
        }         else if is(&name, "nth") {
            Some(Intrinsic::Nth)
        }         else if is(&name, "split") {
            Some(Intrinsic::Split)
        }         else if is(&name, "concat") {
            Some(Intrinsic::Concat)
        }         else if is(&name, "push") {
            Some(Intrinsic::Push)
        }         else if is(&name, "pop") {
            Some(Intrinsic::Pop)
        }         else if is(&name, "insert") {
            Some(Intrinsic::Insert)
        }         else if is(&name, "prop") {
            Some(Intrinsic::Prop)
        }         else if is(&name, "has") {
            Some(Intrinsic::Has)
        }         else if is(&name, "remove") {
            Some(Intrinsic::Remove)
        }         else if is(&name, "keys") {
            Some(Intrinsic::Keys)
        }         else if is(&name, "values") {
            Some(Intrinsic::Values)
        }         else if is(&name, "cast") {
            Some(Intrinsic::Cast)
        }         else if is(&name, "typeof") {
            Some(Intrinsic::TypeOf)
        }         else if is(&name, "lazy") {
            Some(Intrinsic::Lazy)
        }         else if is(&name, "if") {
            Some(Intrinsic::If)
        }         else if is(&name, "halt") {
            Some(Intrinsic::Halt)
        }         else if is(&name, "call") {
            Some(Intrinsic::Call)
        }         else if is(&name, "let") {
            Some(Intrinsic::Let)
        }         else if is(&name, "def") {
            Some(Intrinsic::Def)
        }         else if is(&name, "set") {
            Some(Intrinsic::Assign)
        }         else if is(&name, "get") {
            Some(Intrinsic::Get)
        }         else if is(&name, "debug") {
            Some(Intrinsic::Debug)
        }         else if is(&name, "print") {
            Some(Intrinsic::Print)
        }         else if is(&name, "pretty") {
            Some(Intrinsic::Pretty)
        }         else if is(&name, "recur") {
            Some(Intrinsic::Recur)
        }         else if is(&name, "orelse") {
            Some(Intrinsic::OrElse)
        }         else if is(&name, "import") {
            Some(Intrinsic::Import)
        } else {
            None
        }
    }

    /// The name of the intrinsic.
    pub open spec fn spelling(self) -> Seq<char> {
        match self {
            Intrinsic::Add => "+"@,
            Intrinsic::Sub => "-"@,
            Intrinsic::Mul => "*"@,
            Intrinsic::Div => "/"@,
            Intrinsic::Rem => "%"@,
            Intrinsic::Eq => "="@,
            Intrinsic::Ne => "!="@,
            Intrinsic::Lt => "<"@,
            Intrinsic::Le => "<="@,
            Intrinsic::Gt => ">"@,
            Intrinsic::Ge => ">="@,
            Intrinsic::Or => "or"@,
            Intrinsic::And => "and"@,
            Intrinsic::Not => "not"@,
            Intrinsic::Assert => "assert"@,
            Intrinsic::Drop => "drop"@,
            Intrinsic::Dupe => "dupe"@,
            Intrinsic::Swap => "swap"@,
            Intrinsic::Rot => "rot"@,
            Intrinsic::Len => "len"@,
            Intrinsic::Nth => "nth"@,
            Intrinsic::Split => "split"@,
            Intrinsic::Concat => "concat"@,
            Intrinsic::Push => "push"@,
            Intrinsic::Pop => "pop"@,
            Intrinsic::Insert => "insert"@,
            Intrinsic::Prop => "prop"@,
            Intrinsic::Has => "has"@,
            Intrinsic::Remove => "remove"@,
            Intrinsic::Keys => "keys"@,
            Intrinsic::Values => "values"@,
            Intrinsic::Cast => "cast"@,
            Intrinsic::TypeOf => "typeof"@,
            Intrinsic::Lazy => "lazy"@,
            Intrinsic::If => "if"@,
            Intrinsic::Halt => "halt"@,
            Intrinsic::Call => "call"@,
            Intrinsic::Let => "let"@,
            Intrinsic::Def => "def"@,
            Intrinsic::Assign => "set"@,
            Intrinsic::Get => "get"@,
            Intrinsic::Debug => "debug"@,
            Intrinsic::Print => "print"@,
            Intrinsic::Pretty => "pretty"@,
            Intrinsic::Recur => "recur"@,
            Intrinsic::OrElse => "orelse"@,
            Intrinsic::Import => "import"@,
        }
    }

    /// The name of the intrinsic.
    pub fn name(self) -> (r: &'static str)
        ensures
            r@ == self.spelling(),
    {
        match self {
            Intrinsic::Add => "+",
            Intrinsic::Sub => "-",
            Intrinsic::Mul => "*",
            Intrinsic::Div => "/",
            Intrinsic::Rem => "%",
            Intrinsic::Eq => "=",
            Intrinsic::Ne => "!=",
            Intrinsic::Lt => "<",
            Intrinsic::Le => "<=",
            Intrinsic::Gt => ">",
            Intrinsic::Ge => ">=",
            Intrinsic::Or => "or",
            Intrinsic::And => "and",
            Intrinsic::Not => "not",
            Intrinsic::Assert => "assert",
            Intrinsic::Drop => "drop",
            Intrinsic::Dupe => "dupe",
            Intrinsic::Swap => "swap",
            Intrinsic::Rot => "rot",
            Intrinsic::Len => "len",
            Intrinsic::Nth => "nth",
            Intrinsic::Split => "split",
            Intrinsic::Concat => "concat",
            Intrinsic::Push => "push",
            Intrinsic::Pop => "pop",
            Intrinsic::Insert => "insert",
            Intrinsic::Prop => "prop",
            Intrinsic::Has => "has",
            Intrinsic::Remove => "remove",
            Intrinsic::Keys => "keys",
            Intrinsic::Values => "values",
            Intrinsic::Cast => "cast",
            Intrinsic::TypeOf => "typeof",
            Intrinsic::Lazy => "lazy",
            Intrinsic::If => "if",
            Intrinsic::Halt => "halt",
            Intrinsic::Call => "call",
            Intrinsic::Let => "let",
            Intrinsic::Def => "def",
            Intrinsic::Assign => "set",
            Intrinsic::Get => "get",
            Intrinsic::Debug => "debug",
            Intrinsic::Print => "print",
            Intrinsic::Pretty => "pretty",
            Intrinsic::Recur => "recur",
            Intrinsic::OrElse => "orelse",
            Intrinsic::Import => "import",
        }
    }
}

/// Every intrinsic is found again by its name: no two intrinsics share one.
pub proof fn lemma_name_finds_intrinsic(i: Intrinsic)
    ensures
        intrinsic_named(i.spelling()) == Some(i),
{
    // Two names are told apart by their lengths or by a character: the solver gets the
    // length and the characters of each name spelled out.
    reveal_strlit("+");
    reveal_strlit("-");
    reveal_strlit("*");
    reveal_strlit("/");
    reveal_strlit("%");
    reveal_strlit("=");
    reveal_strlit("!=");
    reveal_strlit("<");
    reveal_strlit("<=");
    reveal_strlit(">");
    reveal_strlit(">=");
    reveal_strlit("or");
    reveal_strlit("and");
    reveal_strlit("not");
    reveal_strlit("assert");
    reveal_strlit("drop");
    reveal_strlit("dupe");
    reveal_strlit("swap");
    reveal_strlit("rot");
    reveal_strlit("len");
    reveal_strlit("nth");
    reveal_strlit("split");
    reveal_strlit("concat");
    reveal_strlit("push");
    reveal_strlit("pop");
    reveal_strlit("insert");
    reveal_strlit("prop");
    reveal_strlit("has");
    reveal_strlit("remove");
    reveal_strlit("keys");
    reveal_strlit("values");
    reveal_strlit("cast");
    reveal_strlit("typeof");
    reveal_strlit("lazy");
    reveal_strlit("if");
    reveal_strlit("halt");
    reveal_strlit("call");
    reveal_strlit("let");
    reveal_strlit("def");
    reveal_strlit("set");
    reveal_strlit("get");
    reveal_strlit("debug");
    reveal_strlit("print");
    reveal_strlit("pretty");
    reveal_strlit("recur");
    reveal_strlit("orelse");
    reveal_strlit("import");
    assert("+"@.len() == 1);
    assert("+"@[0] == '+');
    assert("-"@.len() == 1);
    assert("-"@[0] == '-');
    assert("*"@.len() == 1);
    assert("*"@[0] == '*');
    assert("/"@.len() == 1);
    assert("/"@[0] == '/');
    assert("%"@.len() == 1);
    assert("%"@[0] == '%');
    assert("="@.len() == 1);
    assert("="@[0] == '=');
    assert("!="@.len() == 2);
    assert("!="@[0] == '!');
    assert("!="@[1] == '=');
    assert("<"@.len() == 1);
    assert("<"@[0] == '<');
    assert("<="@.len() == 2);
    assert("<="@[0] == '<');
    assert("<="@[1] == '=');
    assert(">"@.len() == 1);
    assert(">"@[0] == '>');
    assert(">="@.len() == 2);
    assert(">="@[0] == '>');
    assert(">="@[1] == '=');
    assert("or"@.len() == 2);
    assert("or"@[0] == 'o');
    assert("or"@[1] == 'r');
    assert("and"@.len() == 3);
    assert("and"@[0] == 'a');
    assert("and"@[1] == 'n');
    assert("and"@[2] == 'd');
    assert("not"@.len() == 3);
    assert("not"@[0] == 'n');
    assert("not"@[1] == 'o');
    assert("not"@[2] == 't');
    assert("assert"@.len() == 6);
    assert("assert"@[0] == 'a');
    assert("assert"@[1] == 's');
    assert("assert"@[2] == 's');
    assert("assert"@[3] == 'e');
    assert("assert"@[4] == 'r');
    assert("assert"@[5] == 't');
    assert("drop"@.len() == 4);
    assert("drop"@[0] == 'd');
    assert("drop"@[1] == 'r');
    assert("drop"@[2] == 'o');
    assert("drop"@[3] == 'p');
    assert("dupe"@.len() == 4);
    assert("dupe"@[0] == 'd');
    assert("dupe"@[1] == 'u');
    assert("dupe"@[2] == 'p');
    assert("dupe"@[3] == 'e');
    assert("swap"@.len() == 4);
    assert("swap"@[0] == 's');
    assert("swap"@[1] == 'w');
    assert("swap"@[2] == 'a');
    assert("swap"@[3] == 'p');
    assert("rot"@.len() == 3);
    assert("rot"@[0] == 'r');
    assert("rot"@[1] == 'o');
    assert("rot"@[2] == 't');
    assert("len"@.len() == 3);
    assert("len"@[0] == 'l');
    assert("len"@[1] == 'e');
    assert("len"@[2] == 'n');
    assert("nth"@.len() == 3);
    assert("nth"@[0] == 'n');
    assert("nth"@[1] == 't');
    assert("nth"@[2] == 'h');
    assert("split"@.len() == 5);
    assert("split"@[0] == 's');
    assert("split"@[1] == 'p');
    assert("split"@[2] == 'l');
    assert("split"@[3] == 'i');
    assert("split"@[4] == 't');
    assert("concat"@.len() == 6);
    assert("concat"@[0] == 'c');
    assert("concat"@[1] == 'o');
    assert("concat"@[2] == 'n');
    assert("concat"@[3] == 'c');
    assert("concat"@[4] == 'a');
    assert("concat"@[5] == 't');
    assert("push"@.len() == 4);
    assert("push"@[0] == 'p');
    assert("push"@[1] == 'u');
    assert("push"@[2] == 's');
    assert("push"@[3] == 'h');
    assert("pop"@.len() == 3);
    assert("pop"@[0] == 'p');
    assert("pop"@[1] == 'o');
    assert("pop"@[2] == 'p');
    assert("insert"@.len() == 6);
    assert("insert"@[0] == 'i');
    assert("insert"@[1] == 'n');
    assert("insert"@[2] == 's');
    assert("insert"@[3] == 'e');
    assert("insert"@[4] == 'r');
    assert("insert"@[5] == 't');
    assert("prop"@.len() == 4);
    assert("prop"@[0] == 'p');
    assert("prop"@[1] == 'r');
    assert("prop"@[2] == 'o');
    assert("prop"@[3] == 'p');
    assert("has"@.len() == 3);
    assert("has"@[0] == 'h');
    assert("has"@[1] == 'a');
    assert("has"@[2] == 's');
    assert("remove"@.len() == 6);
    assert("remove"@[0] == 'r');
    assert("remove"@[1] == 'e');
    assert("remove"@[2] == 'm');
    assert("remove"@[3] == 'o');
    assert("remove"@[4] == 'v');
    assert("remove"@[5] == 'e');
    assert("keys"@.len() == 4);
    assert("keys"@[0] == 'k');
    assert("keys"@[1] == 'e');
    assert("keys"@[2] == 'y');
    assert("keys"@[3] == 's');
    assert("values"@.len() == 6);
    assert("values"@[0] == 'v');
    assert("values"@[1] == 'a');
    assert("values"@[2] == 'l');
    assert("values"@[3] == 'u');
    assert("values"@[4] == 'e');
    assert("values"@[5] == 's');
    assert("cast"@.len() == 4);
    assert("cast"@[0] == 'c');
    assert("cast"@[1] == 'a');
    assert("cast"@[2] == 's');
    assert("cast"@[3] == 't');
    assert("typeof"@.len() == 6);
    assert("typeof"@[0] == 't');
    assert("typeof"@[1] == 'y');
    assert("typeof"@[2] == 'p');
    assert("typeof"@[3] == 'e');
    assert("typeof"@[4] == 'o');
    assert("typeof"@[5] == 'f');
    assert("lazy"@.len() == 4);
    assert("lazy"@[0] == 'l');
    assert("lazy"@[1] == 'a');
    assert("lazy"@[2] == 'z');
    assert("lazy"@[3] == 'y');
    assert("if"@.len() == 2);
    assert("if"@[0] == 'i');
    assert("if"@[1] == 'f');
    assert("halt"@.len() == 4);
    assert("halt"@[0] == 'h');
    assert("halt"@[1] == 'a');
    assert("halt"@[2] == 'l');
    assert("halt"@[3] == 't');
    assert("call"@.len() == 4);
    assert("call"@[0] == 'c');
    assert("call"@[1] == 'a');
    assert("call"@[2] == 'l');
    assert("call"@[3] == 'l');
    assert("let"@.len() == 3);
    assert("let"@[0] == 'l');
    assert("let"@[1] == 'e');
    assert("let"@[2] == 't');
    assert("def"@.len() == 3);
    assert("def"@[0] == 'd');
    assert("def"@[1] == 'e');
    assert("def"@[2] == 'f');
    assert("set"@.len() == 3);
    assert("set"@[0] == 's');
    assert("set"@[1] == 'e');
    assert("set"@[2] == 't');
    assert("get"@.len() == 3);
    assert("get"@[0] == 'g');
    assert("get"@[1] == 'e');
    assert("get"@[2] == 't');
    assert("debug"@.len() == 5);
    assert("debug"@[0] == 'd');
    assert("debug"@[1] == 'e');
    assert("debug"@[2] == 'b');
    assert("debug"@[3] == 'u');
    assert("debug"@[4] == 'g');
    assert("print"@.len() == 5);
    assert("print"@[0] == 'p');
    assert("print"@[1] == 'r');
    assert("print"@[2] == 'i');
    assert("print"@[3] == 'n');
    assert("print"@[4] == 't');
    assert("pretty"@.len() == 6);
    assert("pretty"@[0] == 'p');
    assert("pretty"@[1] == 'r');
    assert("pretty"@[2] == 'e');
    assert("pretty"@[3] == 't');
    assert("pretty"@[4] == 't');
    assert("pretty"@[5] == 'y');
    assert("recur"@.len() == 5);
    assert("recur"@[0] == 'r');
    assert("recur"@[1] == 'e');
    assert("recur"@[2] == 'c');
    assert("recur"@[3] == 'u');
    assert("recur"@[4] == 'r');
    assert("orelse"@.len() == 6);
    assert("orelse"@[0] == 'o');
    assert("orelse"@[1] == 'r');
    assert("orelse"@[2] == 'e');
    assert("orelse"@[3] == 'l');
    assert("orelse"@[4] == 's');
    assert("orelse"@[5] == 'e');
    assert("import"@.len() == 6);
    assert("import"@[0] == 'i');
    assert("import"@[1] == 'm');
    assert("import"@[2] == 'p');
    assert("import"@[3] == 'o');
    assert("import"@[4] == 'r');
    assert("import"@[5] == 't');
}

} // verus!
