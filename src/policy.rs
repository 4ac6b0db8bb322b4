use vstd::prelude::*;

verus! {

/// How a list whose head is a symbol is laid out.
#[derive(Debug, Clone, Copy, PartialEq, Eq, Structural)]
pub enum Policy {
    /// The given number of leading arguments stay on the operator's line;
    /// the body below them is indented one column past the operator's own
    /// indentation.
    Special(usize),
    /// The body is indented two columns past the opening parenthesis.
    Definition,
    /// A call: the arguments after the first line up under the first.
    Call,
}

/// Operators whose body follows at once.
pub open spec fn special_zero(name: Seq<char>) -> bool {
    ||| name == "alt!!"@
    ||| name == "alt!"@
    ||| name == "comment"@
    ||| name == "cond"@
    ||| name == "delay"@
    ||| name == "do"@
    ||| name == "finally"@
    ||| name == "future"@
    ||| name == "go"@
    ||| name == "thread"@
    ||| name == "try"@
}

/// Operators with one leading argument.
pub open spec fn special_one(name: Seq<char>) -> bool {
    ||| name == "ns"@
    ||| name == "if"@
    ||| name == "if-not"@
    ||| name == "case"@
    ||| name == "when"@
    ||| name == "while"@
    ||| name == "cond->"@
    ||| name == "cond->>"@
    ||| name == "when-not"@
    ||| name == "when-first"@
    ||| name == "doto"@
    ||| name == "locking"@
    ||| name == "fdef"@
    ||| name == "extend"@
    ||| name == "let"@
    ||| name == "binding"@
    ||| name == "loop"@
    ||| name == "for"@
    ||| name == "doseq"@
    ||| name == "dotimes"@
    ||| name == "when-let"@
    ||| name == "if-let"@
    ||| name == "when-some"@
    ||| name == "if-some"@
    ||| name == "this-as"@
    ||| name == "testing"@
    ||| name == "async"@
    ||| name == "go-loop"@
}

/// Operators with two leading arguments.
pub open spec fn special_two(name: Seq<char>) -> bool {
    ||| name == "condp"@
    ||| name == "as->"@
    ||| name == "catch"@
    ||| name == "are"@
}

/// Operators that define something.
pub open spec fn definition(name: Seq<char>) -> bool {
    ||| name == "fn"@
    ||| name == "def"@
    ||| name == "defn"@
    ||| name == "bound-fn"@
    ||| name == "defmethod"@
    ||| name == "run"@
    ||| name == "run*"@
    ||| name == "fresh"@
    ||| name == "deftest"@
    ||| name == "use-fixtures"@
}

/// The policy of the operator `name`; a name that the table does not hold is
/// a call.
pub open spec fn policy_of(name: Seq<char>) -> Policy {
    if special_zero(name) {
        Policy::Special(0)
    } else if special_one(name) {
        Policy::Special(1)
    } else if special_two(name) {
        Policy::Special(2)
    } else if definition(name) {
        Policy::Definition
    } else {
        Policy::Call
    }
}

/// Whether two strings hold the same characters.
pub fn same_text(a: &str, b: &str) -> (r: bool)
    ensures
        r == (a@ == b@),
{
    let n = a.unicode_len();
    if n != b.unicode_len() {
        return false;
    }
    let mut i: usize = 0;
    while i < n
        invariant
            n == a@.len(),
            n == b@.len(),
            i <= n,
            a@.subrange(0, i as int) == b@.subrange(0, i as int),
        decreases n - i,
    {
        if a.get_char(i) != b.get_char(i) {
            assert(a@[i as int] != b@[i as int]);
            return false;
        }
        assert(a@.subrange(0, i + 1) == a@.subrange(0, i as int).push(a@[i as int]));
        assert(b@.subrange(0, i + 1) == b@.subrange(0, i as int).push(b@[i as int]));
        i = i + 1;
    }
    assert(a@ == a@.subrange(0, n as int));
    assert(b@ == b@.subrange(0, n as int));
    true
}

/// The policy of the operator `name`.
pub fn policy(name: &str) -> (r: Policy)
    ensures
        r == policy_of(name@),
{
    if same_text(name, "alt!!")
        || same_text(name, "alt!")
        || same_text(name, "comment")
        || same_text(name, "cond")
        || same_text(name, "delay")
        || same_text(name, "do")
        || same_text(name, "finally")
        || same_text(name, "future")
        || same_text(name, "go")
        || same_text(name, "thread")
        || same_text(name, "try") {
        Policy::Special(0)
    } else if same_text(name, "ns")
        || same_text(name, "if")
        || same_text(name, "if-not")
        || same_text(name, "case")
        || same_text(name, "when")
        || same_text(name, "while")
        || same_text(name, "cond->")
        || same_text(name, "cond->>")
        || same_text(name, "when-not")
        || same_text(name, "when-first")
        || same_text(name, "doto")
        || same_text(name, "locking")
        || same_text(name, "fdef")
        || same_text(name, "extend")
        || same_text(name, "let")
        || same_text(name, "binding")
        || same_text(name, "loop")
        || same_text(name, "for")
        || same_text(name, "doseq")
        || same_text(name, "dotimes")
        || same_text(name, "when-let")
        || same_text(name, "if-let")
        || same_text(name, "when-some")
        || same_text(name, "if-some")
        || same_text(name, "this-as")
        || same_text(name, "testing")
        || same_text(name, "async")
        || same_text(name, "go-loop") {
        Policy::Special(1)
    } else if same_text(name, "condp")
        || same_text(name, "as->")
        || same_text(name, "catch")
        || same_text(name, "are") {
        Policy::Special(2)
    } else if same_text(name, "fn")
        || same_text(name, "def")
        || same_text(name, "defn")
        || same_text(name, "bound-fn")
        || same_text(name, "defmethod")
        || same_text(name, "run")
        || same_text(name, "run*")
        || same_text(name, "fresh")
        || same_text(name, "deftest")
        || same_text(name, "use-fixtures") {
        Policy::Definition
    } else {
        Policy::Call
    }
}

} // verus!
