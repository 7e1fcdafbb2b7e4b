//! Reading the options of a slash-command interaction, and paging through a
//! menu of embeds with reactions.
use vstd::prelude::*;

use crate::commands::time::same_text;

verus! {

/// The value of an option that is neither a subcommand nor a group.
pub enum LeafValue {
    String(String),
    Integer(i64),
    Boolean(bool),
    User(u64),
    Channel(u64),
    Role(u64),
    Mentionable(u64),
    Attachment(u64),
    /// A floating-point number, as the bits `f64::to_bits` gives.
    Number(u64),
}

/// The kind of an option value.
#[derive(Clone, Copy, Debug, PartialEq, Eq, Structural)]
pub enum OptionKind {
    String,
    Integer,
    Boolean,
    User,
    Channel,
    Role,
    Mentionable,
    Attachment,
    Number,
}

/// A named option with a plain value.
pub struct LeafOption {
    pub name: String,
    pub value: LeafValue,
}

/// A subcommand and the options given to it.
pub struct SubCommandOption {
    pub name: String,
    pub options: Vec<LeafOption>,
}

/// An option at the top of an interaction.
pub enum TopOption {
    Leaf(LeafOption),
    SubCommand(SubCommandOption),
    Group { name: String, subcommands: Vec<SubCommandOption> },
}

/// What reacting to a paged menu does.
#[derive(Clone, Copy, Debug, PartialEq, Eq, Structural)]
pub enum PageStep {
    /// Show the page at this position.
    Show(usize),
    /// Stop listening and clear the reactions.
    Stop,
    /// Not a control reaction: nothing changes.
    Ignore,
}

/// The kind of a leaf value.
pub open spec fn kind_of(v: LeafValue) -> OptionKind {
    match v {
        LeafValue::String(_) => OptionKind::String,
        LeafValue::Integer(_) => OptionKind::Integer,
        LeafValue::Boolean(_) => OptionKind::Boolean,
        LeafValue::User(_) => OptionKind::User,
        LeafValue::Channel(_) => OptionKind::Channel,
        LeafValue::Role(_) => OptionKind::Role,
        LeafValue::Mentionable(_) => OptionKind::Mentionable,
        LeafValue::Attachment(_) => OptionKind::Attachment,
        LeafValue::Number(_) => OptionKind::Number,
    }
}

/// The plain options among the top options.
pub open spec fn top_leaves(options: Seq<TopOption>) -> Seq<LeafOption>
    decreases options.len(),
{
    if options.len() == 0 {
        Seq::empty()
    } else {
        let rest = top_leaves(options.drop_last());
        match options.last() {
            TopOption::Leaf(l) => rest.push(l),
            _ => rest,
        }
    }
}

/// The options an interaction's values are read from: those of its
/// subcommand when it has one (the first subcommand of a group), its own
/// plain options otherwise.
pub open spec fn option_scope(options: Seq<TopOption>) -> Seq<LeafOption> {
    if options.len() == 0 {
        Seq::empty()
    } else {
        match options[0] {
            TopOption::SubCommand(sc) => sc.options@,
            TopOption::Group { subcommands, .. } => if subcommands@.len() > 0 {
                subcommands@[0].options@
            } else {
                Seq::empty()
            },
            TopOption::Leaf(_) => top_leaves(options),
        }
    }
}

/// Whether the option at position `i` of `leaves` is the first named `name` with a value of `kind`.
pub open spec fn first_match(leaves: Seq<LeafOption>, name: Seq<char>, kind: OptionKind, i: int) -> bool {
    &&& 0 <= i < leaves.len()
    &&& leaves[i].name@ == name
    &&& kind_of(leaves[i].value) == kind
    &&& forall|j: int|
        0 <= j < i ==> !(#[trigger] leaves[j].name@ == name && kind_of(leaves[j].value) == kind)
}

fn leaf_kind(v: &LeafValue) -> (r: OptionKind)
    ensures
        r == kind_of(*v),
{
    match v {
        LeafValue::String(_) => OptionKind::String,
        LeafValue::Integer(_) => OptionKind::Integer,
        LeafValue::Boolean(_) => OptionKind::Boolean,
        LeafValue::User(_) => OptionKind::User,
        LeafValue::Channel(_) => OptionKind::Channel,
        LeafValue::Role(_) => OptionKind::Role,
        LeafValue::Mentionable(_) => OptionKind::Mentionable,
        LeafValue::Attachment(_) => OptionKind::Attachment,
        LeafValue::Number(_) => OptionKind::Number,
    }
}

fn find_leaf<'a>(leaves: &'a Vec<LeafOption>, name: &str, kind: OptionKind) -> (r: Option<&'a LeafValue>)
    ensures
        match r {
            Some(v) => exists|i: int| first_match(leaves@, name@, kind, i) && *v == leaves@[i].value,
            None => forall|i: int|
                0 <= i < leaves@.len() ==> !(#[trigger] leaves@[i].name@ == name@ && kind_of(
                    leaves@[i].value,
                ) == kind),
        },
{
    let mut i: usize = 0;
    while i < leaves.len()
        invariant
            i <= leaves@.len(),
            forall|j: int|
                0 <= j < i ==> !(#[trigger] leaves@[j].name@ == name@ && kind_of(leaves@[j].value)
                    == kind),
        decreases leaves@.len() - i,
    {
        if leaf_kind(&leaves[i].value) == kind && same_text(leaves[i].name.as_str(), name) {
            assert(first_match(leaves@, name@, kind, i as int));
            return Some(&leaves[i].value);
        }
        i = i + 1;
    }
    None
}

fn find_top_leaf<'a>(options: &'a Vec<TopOption>, name: &str, kind: OptionKind) -> (r: Option<
    &'a LeafValue,
>)
    ensures
        match r {
            Some(v) => exists|i: int|
                first_match(top_leaves(options@), name@, kind, i) && *v == top_leaves(options@)[i].value,
            None => forall|i: int|
                0 <= i < top_leaves(options@).len() ==> !(#[trigger] top_leaves(options@)[i].name@
                    == name@ && kind_of(top_leaves(options@)[i].value) == kind),
        },
{
    let mut i: usize = 0;
    while i < options.len()
        invariant
            i <= options@.len(),
            forall|j: int|
                0 <= j < top_leaves(options@.subrange(0, i as int)).len() ==> !(
                #[trigger] top_leaves(options@.subrange(0, i as int))[j].name@ == name@ && kind_of(
                    top_leaves(options@.subrange(0, i as int))[j].value,
                ) == kind),
        decreases options@.len() - i,
    {
        let ghost prefix = options@.subrange(0, i as int);
        let ghost next = options@.subrange(0, i + 1);
        proof {
            assert(next.drop_last() =~= prefix);
            lemma_top_leaves_prefix(options@, i + 1);
            lemma_top_leaves_prefix(options@, i as int);
        }
        match &options[i] {
            TopOption::Leaf(l) => {
                if leaf_kind(&l.value) == kind && same_text(l.name.as_str(), name) {
                    proof {
                        let k = top_leaves(prefix).len() as int;
                        assert(top_leaves(next)[k] == *l);
                        assert(first_match(top_leaves(next), name@, kind, k));
                        assert(top_leaves(options@)[k] == *l);
                        assert forall|j: int| 0 <= j < k implies !(#[trigger] top_leaves(
                            options@,
                        )[j].name@ == name@ && kind_of(top_leaves(options@)[j].value) == kind) by {
                            assert(top_leaves(prefix)[j] == top_leaves(options@)[j]);
                        }
                        assert(first_match(top_leaves(options@), name@, kind, k));
                    }
                    return Some(&l.value);
                }
            },
            _ => {},
        }
        i = i + 1;
    }
    assert(options@.subrange(0, options@.len() as int) =~= options@);
    None
}

/// The leaves of a prefix of `options` begin the leaves of `options`.
proof fn lemma_top_leaves_prefix(options: Seq<TopOption>, n: int)
    requires
        0 <= n <= options.len(),
    ensures
        top_leaves(options.subrange(0, n)).len() <= top_leaves(options).len(),
        forall|j: int|
            0 <= j < top_leaves(options.subrange(0, n)).len() ==> #[trigger] top_leaves(
                options.subrange(0, n),
            )[j] == top_leaves(options)[j],
    decreases options.len() - n,
{
    if n < options.len() {
        lemma_top_leaves_prefix(options, n + 1);
        let shorter = options.subrange(0, n);
        let longer = options.subrange(0, n + 1);
        assert(longer.drop_last() =~= shorter);
        assert forall|j: int| 0 <= j < top_leaves(shorter).len() implies #[trigger] top_leaves(
            shorter,
        )[j] == top_leaves(options)[j] by {
            assert(top_leaves(longer)[j] == top_leaves(shorter)[j]);
        }
    } else {
        assert(options.subrange(0, n) =~= options);
    }
}

/// The value of the first option named `name` with a value of `kind`, read
/// from the interaction's subcommand if it has one.
pub fn get_value<'a>(options: &'a Vec<TopOption>, name: &str, kind: OptionKind) -> (r: Option<
    &'a LeafValue,
>)
    ensures
        match r {
            Some(v) => exists|i: int|
                first_match(option_scope(options@), name@, kind, i) && *v == option_scope(
                    options@,
                )[i].value,
            None => forall|i: int|
                0 <= i < option_scope(options@).len() ==> !(#[trigger] option_scope(options@)[i].name@
                    == name@ && kind_of(option_scope(options@)[i].value) == kind),
        },
{
    if options.len() == 0 {
        return None;
    }
    match &options[0] {
        TopOption::SubCommand(sc) => find_leaf(&sc.options, name, kind),
        TopOption::Group { subcommands, .. } => {
            if subcommands.len() == 0 {
                None
            } else {
                find_leaf(&subcommands[0].options, name, kind)
            }
        },
        TopOption::Leaf(_) => find_top_leaf(options, name, kind),
    }
}

/// The subcommand an interaction runs: the first option if it is a
/// subcommand, or the first subcommand of a group.
pub fn get_subcommand<'a>(options: &'a Vec<TopOption>) -> (r: Option<&'a SubCommandOption>)
    ensures
        options@.len() == 0 ==> r.is_none(),
        options@.len() > 0 ==> match options@[0] {
            TopOption::SubCommand(sc) => r == Some(&sc),
            TopOption::Group { subcommands, .. } => if subcommands@.len() > 0 {
                r == Some(&subcommands@[0])
            } else {
                r.is_none()
            },
            TopOption::Leaf(_) => r.is_none(),
        },
{
    if options.len() == 0 {
        return None;
    }
    match &options[0] {
        TopOption::SubCommand(sc) => Some(sc),
        TopOption::Group { subcommands, .. } => if subcommands.len() == 0 {
            None
        } else {
            Some(&subcommands[0])
        },
        TopOption::Leaf(_) => None,
    }
}

/// What a reaction does to a menu of `count` pages showing page `page`:
/// first, previous, next and last page, or stop; previous and next stay
/// within the pages.
pub fn page_after(page: usize, reaction: &str, count: usize) -> (r: PageStep)
    requires
        count >= 1,
        page < count,
    ensures
        reaction@ == "⏪"@ ==> r == PageStep::Show(0),
        reaction@ == "◀️"@ ==> r == PageStep::Show(if page > 0 {
            (page - 1) as usize
        } else {
            0
        }),
        reaction@ == "▶️"@ ==> r == PageStep::Show(if page + 1 < count {
            (page + 1) as usize
        } else {
            (count - 1) as usize
        }),
        reaction@ == "⏩"@ ==> r == PageStep::Show((count - 1) as usize),
        reaction@ == "⏹️"@ ==> r == PageStep::Stop,
        (reaction@ != "⏪"@ && reaction@ != "◀️"@ && reaction@ != "▶️"@ && reaction@ != "⏩"@
            && reaction@ != "⏹️"@) ==> r == PageStep::Ignore,
{
    proof {
        reveal_strlit("⏪");
        reveal_strlit("◀️");
        reveal_strlit("▶️");
        reveal_strlit("⏩");
        reveal_strlit("⏹️");
        assert("⏪"@.len() == 1);
        assert("⏩"@.len() == 1);
        assert("◀️"@.len() == 2);
        assert("▶️"@.len() == 2);
        assert("⏹️"@.len() == 2);
        assert("⏪"@[0] != "⏩"@[0]);
        assert("◀️"@[0] != "▶️"@[0]);
        assert("◀️"@[0] != "⏹️"@[0]);
        assert("▶️"@[0] != "⏹️"@[0]);
    }
    if same_text(reaction, "⏪") {
        PageStep::Show(0)
    } else if same_text(reaction, "◀️") {
        PageStep::Show(if page > 0 {
            page - 1
        } else {
            0
        })
    } else if same_text(reaction, "▶️") {
        PageStep::Show(if page + 1 < count {
            page + 1
        } else {
            count - 1
        })
    } else if same_text(reaction, "⏩") {
        PageStep::Show(count - 1)
    } else if same_text(reaction, "⏹️") {
        PageStep::Stop
    } else {
        PageStep::Ignore
    }
}

} // verus!
