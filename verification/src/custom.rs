use crate::text::{normalize_name, normalized, same_text, strip_colons, without_colons};
use vstd::prelude::*;
use vstd::string::StringExecFns;

verus! {

/// A user-defined command that maps to one or more built-in commands.
#[derive(Clone, Debug, PartialEq, Eq)]
pub struct CustomTypableCommand {
    /// The name that invokes it; a leading `':'` does not count.
    pub name: String,
    /// What it does, in a sentence.
    pub desc: Option<String>,
    /// The templates of the commands it maps to, in the order they run.
    pub commands: Vec<String>,
    /// A hint on the arguments it takes.
    pub accepts: Option<String>,
    /// The name of the command whose completion it borrows.
    pub completer: Option<String>,
}

/// The user-defined commands, in the order they were registered.
#[derive(Clone, Debug, PartialEq, Eq)]
pub struct CustomTypeableCommands {
    pub commands: Vec<CustomTypableCommand>,
}

/// A `CustomTypableCommand` with its texts as sequences of characters.
pub struct CommandText {
    pub name: Seq<char>,
    pub desc: Option<Seq<char>>,
    pub commands: Seq<Seq<char>>,
    pub accepts: Option<Seq<char>>,
    pub completer: Option<Seq<char>>,
}

/// The text of an optional string.
pub open spec fn optional_text(value: Option<String>) -> Option<Seq<char>> {
    match value {
        Some(text) => Some(text@),
        None => None,
    }
}

impl View for CustomTypableCommand {
    type V = CommandText;

    open spec fn view(&self) -> CommandText {
        CommandText {
            name: self.name@,
            desc: optional_text(self.desc),
            commands: Seq::new(self.commands@.len(), |i: int| self.commands@[i]@),
            accepts: optional_text(self.accepts),
            completer: optional_text(self.completer),
        }
    }
}

/// The first position at or after `from` whose command answers to `key`, a
/// name without its leading `':'`.
pub open spec fn lookup_from(cmds: Seq<CustomTypableCommand>, key: Seq<char>, from: int) -> Option<
    int,
>
    decreases cmds.len() - from,
{
    if from < 0 || from >= cmds.len() {
        None
    } else if normalize_name(cmds[from].name@) == key {
        Some(from)
    } else {
        lookup_from(cmds, key, from + 1)
    }
}

/// What stands between the template at `i` and the one before it: two
/// templates share a row, and each further row opens with an arrow.
pub open spec fn separator(i: int) -> Seq<char> {
    if i <= 0 {
        Seq::empty()
    } else if i % 2 == 1 {
        " -> "@
    } else {
        "\n    -> "@
    }
}

/// The first `k` templates as the help text shows them.
pub open spec fn steps_text(cmds: Seq<String>, k: int) -> Seq<char>
    decreases k,
{
    if k <= 0 {
        Seq::empty()
    } else {
        steps_text(cmds, k - 1) + separator(k - 1) + ":"@ + strip_colons(cmds[k - 1]@)
    }
}

impl CustomTypeableCommands {
    /// The position of the command that `name` invokes: the first one
    /// registered under that name, a leading `':'` of either not counting.
    pub open spec fn lookup(self, name: Seq<char>) -> Option<int> {
        lookup_from(self.commands@, normalize_name(name), 0)
    }

    /// The command that `name` invokes, if one is registered.
    #[must_use]
    pub fn get(&self, name: &str) -> (r: Option<&CustomTypableCommand>)
        ensures
            match self.lookup(name@) {
                Some(i) => r == Some(&self.commands@[i]),
                None => r.is_none(),
            },
    {
        let key: &str = normalized(name);
        let mut i: usize = 0;
        while i < self.commands.len()
            invariant
                i <= self.commands@.len(),
                key@ == normalize_name(name@),
                self.lookup(name@) == lookup_from(self.commands@, key@, i as int),
            decreases self.commands@.len() - i,
        {
            if same_text(normalized(self.commands[i].name.as_str()), key) {
                return Some(&self.commands[i]);
            }
            i += 1;
        }
        None
    }

    /// The names of the commands, each without its leading `':'`, in the
    /// order they were registered.
    pub fn names(&self) -> (r: Vec<&str>)
        ensures
            r@.len() == self.commands@.len(),
            forall|i: int|
                0 <= i < r@.len() ==> (#[trigger] r@[i])@ == normalize_name(
                    self.commands@[i].name@,
                ),
    {
        let mut names: Vec<&str> = Vec::new();
        let mut i: usize = 0;
        while i < self.commands.len()
            invariant
                i <= self.commands@.len(),
                names@.len() == i,
                forall|j: int|
                    0 <= j < i ==> (#[trigger] names@[j])@ == normalize_name(
                        self.commands@[j].name@,
                    ),
            decreases self.commands@.len() - i,
        {
            names.push(normalized(self.commands[i].name.as_str()));
            i += 1;
        }
        names
    }
}

impl CustomTypableCommand {
    /// The help text: the name, the hint on its arguments if there is one, a
    /// colon and the description; an empty line; and under `maps:` the
    /// templates, two to a row.
    pub open spec fn prompt_text(self) -> Seq<char> {
        normalize_name(self.name@) + match self.accepts {
            Some(hint) => " "@ + hint@,
            None => Seq::empty(),
        } + ": "@ + match self.desc {
            Some(desc) => desc@,
            None => Seq::empty(),
        } + "\n\nmaps:\n   "@ + steps_text(self.commands@, self.commands@.len() as int)
    }

    /// The help text of this command.
    pub fn prompt(&self) -> (r: String)
        ensures
            r@ == self.prompt_text(),
    {
        let mut prompt: String = String::from_str(normalized(self.name.as_str()));
        match &self.accepts {
            Some(hint) => {
                prompt.append(" ");
                prompt.append(hint.as_str());
                assert(prompt@ =~= normalize_name(self.name@) + (" "@ + hint@));
            },
            None => {
                assert(prompt@ =~= normalize_name(self.name@) + Seq::<char>::empty());
            },
        }
        prompt.append(": ");
        match &self.desc {
            Some(desc) => {
                prompt.append(desc.as_str());
            },
            None => {
                assert(prompt@ =~= prompt@ + Seq::<char>::empty());
            },
        }
        prompt.append("\n\nmaps:\n   ");
        let ghost head = prompt@;
        assert(head =~= head + steps_text(self.commands@, 0));
        let mut i: usize = 0;
        while i < self.commands.len()
            invariant
                i <= self.commands@.len(),
                prompt@ == head + steps_text(self.commands@, i as int),
            decreases self.commands@.len() - i,
        {
            let ghost before = prompt@;
            if i == 0 {
                assert(prompt@ =~= before + separator(0));
            } else if i % 2 == 1 {
                prompt.append(" -> ");
            } else {
                prompt.append("\n    -> ");
            }
            prompt.append(":");
            prompt.append(without_colons(self.commands[i].as_str()));
            assert(prompt@ =~= head + steps_text(self.commands@, i + 1));
            i += 1;
        }
        prompt
    }

    /// The templates, each without its leading colons, in the order they run.
    pub fn iter(&self) -> (r: Vec<&str>)
        ensures
            r@.len() == self.commands@.len(),
            forall|i: int|
                0 <= i < r@.len() ==> (#[trigger] r@[i])@ == strip_colons(self.commands@[i]@),
    {
        let mut steps: Vec<&str> = Vec::new();
        let mut i: usize = 0;
        while i < self.commands.len()
            invariant
                i <= self.commands@.len(),
                steps@.len() == i,
                forall|j: int|
                    0 <= j < i ==> (#[trigger] steps@[j])@ == strip_colons(self.commands@[j]@),
            decreases self.commands@.len() - i,
        {
            steps.push(without_colons(self.commands[i].as_str()));
            i += 1;
        }
        steps
    }
}

/// The command `lg` of the registry that stands in for a missing
/// configuration: one step, no arguments.
pub open spec fn lazygit_text() -> CommandText {
    CommandText {
        name: ":lg"@,
        desc: Some("runs lazygit in a floating pane"@),
        commands: seq![":sh wezterm cli spawn --floating-pane lazygit"@],
        accepts: None,
        completer: None,
    }
}

/// The command `w` of the registry that stands in for a missing
/// configuration: it writes the buffer, then changes the directory.
pub open spec fn write_text() -> CommandText {
    CommandText {
        name: ":w"@,
        desc: Some("writes buffer forcefully and changes directory"@),
        commands: seq![
            ":write --force %{arg}"@,
            ":cd %sh{ %{arg} | path dirname }"@,
            ":cd %sh{ %{arg} | path dirname }"@,
            ":cd %sh{ %{arg} | path dirname }"@,
            ":cd %sh{ %{arg} | path dirname }"@,
        ],
        accepts: Some("<path>"@),
        completer: Some(":write"@),
    }
}

impl Default for CustomTypeableCommands {
    /// The registry that is used where the user configured none.
    fn default() -> (r: Self)
        ensures
            r.commands@.len() == 2,
            r.commands@[0]@ == lazygit_text(),
            r.commands@[1]@ == write_text(),
    {
        let mut lazygit_steps: Vec<String> = Vec::new();
        lazygit_steps.push(String::from_str(":sh wezterm cli spawn --floating-pane lazygit"));
        let lazygit = CustomTypableCommand {
            name: String::from_str(":lg"),
            desc: Some(String::from_str("runs lazygit in a floating pane")),
            commands: lazygit_steps,
            accepts: None,
            completer: None,
        };
        assert(lazygit@.commands =~= lazygit_text().commands);
        let mut write_steps: Vec<String> = Vec::new();
        write_steps.push(String::from_str(":write --force %{arg}"));
        write_steps.push(String::from_str(":cd %sh{ %{arg} | path dirname }"));
        write_steps.push(String::from_str(":cd %sh{ %{arg} | path dirname }"));
        write_steps.push(String::from_str(":cd %sh{ %{arg} | path dirname }"));
        write_steps.push(String::from_str(":cd %sh{ %{arg} | path dirname }"));
        let write = CustomTypableCommand {
            name: String::from_str(":w"),
            desc: Some(String::from_str("writes buffer forcefully and changes directory")),
            commands: write_steps,
            accepts: Some(String::from_str("<path>")),
            completer: Some(String::from_str(":write")),
        };
        assert(write@.commands =~= write_text().commands);
        let mut commands: Vec<CustomTypableCommand> = Vec::new();
        commands.push(lazygit);
        commands.push(write);
        CustomTypeableCommands { commands }
    }
}

/// A name is looked up the same with and without a `':'` in front of it.
pub proof fn lemma_lookup_ignores_colon(registry: CustomTypeableCommands, name: Seq<char>)
    requires
        name.len() == 0 || name[0] != ':',
    ensures
        registry.lookup(seq![':'] + name) == registry.lookup(name),
{
    let with_colon = seq![':'] + name;
    assert(with_colon.subrange(1, with_colon.len() as int) =~= name);
}

/// Where several commands answer to one name, the lookup gives the one
/// registered first: it finds a command whenever one at `j` answers to
/// `name`, that command answers to `name` too, and none before it does.
pub proof fn lemma_lookup_first(registry: CustomTypeableCommands, name: Seq<char>, j: int)
    requires
        0 <= j < registry.commands@.len(),
        normalize_name(registry.commands@[j].name@) == normalize_name(name),
    ensures
        registry.lookup(name).is_some(),
        0 <= registry.lookup(name).unwrap() <= j,
        normalize_name(registry.commands@[registry.lookup(name).unwrap()].name@) == normalize_name(
            name,
        ),
        forall|k: int|
            0 <= k < registry.lookup(name).unwrap() ==> normalize_name(
                #[trigger] registry.commands@[k].name@,
            ) != normalize_name(name),
{
    lemma_lookup_from(registry.commands@, normalize_name(name), 0, j);
}

proof fn lemma_lookup_from(cmds: Seq<CustomTypableCommand>, key: Seq<char>, from: int, j: int)
    requires
        0 <= from <= j < cmds.len(),
        normalize_name(cmds[j].name@) == key,
    ensures
        lookup_from(cmds, key, from).is_some(),
        from <= lookup_from(cmds, key, from).unwrap() <= j,
        normalize_name(cmds[lookup_from(cmds, key, from).unwrap()].name@) == key,
        forall|k: int|
            from <= k < lookup_from(cmds, key, from).unwrap() ==> normalize_name(
                #[trigger] cmds[k].name@,
            ) != key,
    decreases j - from,
{
    if normalize_name(cmds[from].name@) != key {
        lemma_lookup_from(cmds, key, from + 1, j);
    }
}

} // verus!
