//! The command catalog: the fixed command set the bot registers at startup,
//! and the catalog's upsert semantics, under which re-registering the same
//! set is the identity.

use vstd::prelude::*;
use vstd::string::*;

use crate::text::str_eq;

verus! {

/// The kind of a command parameter. Only a user reference is consumed today.
#[derive(Clone, Copy, PartialEq, Eq, Structural, Debug)]
pub enum OptionKind {
    User,
}

/// One typed parameter of a command.
#[derive(Debug)]
pub struct OptionDef {
    pub name: String,
    pub description: String,
    pub kind: OptionKind,
    pub required: bool,
}

/// One command: a unique name, a description, and its parameters.
#[derive(Debug)]
pub struct CommandDef {
    pub name: String,
    pub description: String,
    pub options: Vec<OptionDef>,
}

/// Mathematical image of an `OptionDef`.
pub struct OptionModel {
    pub name: Seq<char>,
    pub description: Seq<char>,
    pub kind: OptionKind,
    pub required: bool,
}

/// Mathematical image of a `CommandDef`.
pub struct CommandModel {
    pub name: Seq<char>,
    pub description: Seq<char>,
    pub options: Seq<OptionModel>,
}

impl View for OptionDef {
    type V = OptionModel;

    open spec fn view(&self) -> OptionModel {
        OptionModel {
            name: self.name@,
            description: self.description@,
            kind: self.kind,
            required: self.required,
        }
    }
}

pub open spec fn option_models(os: Seq<OptionDef>) -> Seq<OptionModel> {
    os.map_values(|o: OptionDef| o@)
}

impl View for CommandDef {
    type V = CommandModel;

    open spec fn view(&self) -> CommandModel {
        CommandModel {
            name: self.name@,
            description: self.description@,
            options: option_models(self.options@),
        }
    }
}

pub open spec fn command_models(ds: Seq<CommandDef>) -> Seq<CommandModel> {
    ds.map_values(|d: CommandDef| d@)
}

/// Upserting one command replaces the first entry with the same name, or
/// appends the command where no entry carries its name.
pub open spec fn upsert(cat: Seq<CommandModel>, d: CommandModel) -> Seq<CommandModel>
    decreases cat.len(),
{
    if cat.len() == 0 {
        seq![d]
    } else if cat[0].name == d.name {
        seq![d] + cat.drop_first()
    } else {
        seq![cat[0]] + upsert(cat.drop_first(), d)
    }
}

/// Registering a set upserts its commands in order.
pub open spec fn register_all(cat: Seq<CommandModel>, ds: Seq<CommandModel>) -> Seq<CommandModel>
    decreases ds.len(),
{
    if ds.len() == 0 {
        cat
    } else {
        register_all(upsert(cat, ds[0]), ds.drop_first())
    }
}

/// Pairwise distinct command names.
pub open spec fn unique_names(ds: Seq<CommandModel>) -> bool {
    forall|i: int, j: int| 0 <= i < j < ds.len() ==> ds[i].name != ds[j].name
}

/// The first entry named like `d` is `d` itself.
pub open spec fn first_holds(cat: Seq<CommandModel>, d: CommandModel) -> bool
    decreases cat.len(),
{
    if cat.len() == 0 {
        false
    } else if cat[0].name == d.name {
        cat[0] == d
    } else {
        first_holds(cat.drop_first(), d)
    }
}

proof fn lemma_upsert_found(cat: Seq<CommandModel>, d: CommandModel, i: int)
    requires
        0 <= i < cat.len(),
        cat[i].name == d.name,
        forall|j: int| 0 <= j < i ==> cat[j].name != d.name,
    ensures
        upsert(cat, d) == cat.update(i, d),
    decreases i,
{
    if i == 0 {
        assert(seq![d] + cat.drop_first() =~= cat.update(0, d));
    } else {
        lemma_upsert_found(cat.drop_first(), d, i - 1);
        assert(seq![cat[0]] + cat.drop_first().update(i - 1, d) =~= cat.update(i, d));
    }
}

proof fn lemma_upsert_missing(cat: Seq<CommandModel>, d: CommandModel)
    requires
        forall|j: int| 0 <= j < cat.len() ==> cat[j].name != d.name,
    ensures
        upsert(cat, d) == cat.push(d),
    decreases cat.len(),
{
    if cat.len() == 0 {
        assert(seq![d] =~= cat.push(d));
    } else {
        lemma_upsert_missing(cat.drop_first(), d);
        assert(seq![cat[0]] + cat.drop_first().push(d) =~= cat.push(d));
    }
}

proof fn lemma_upsert_establishes(cat: Seq<CommandModel>, d: CommandModel)
    ensures
        first_holds(upsert(cat, d), d),
    decreases cat.len(),
{
    if cat.len() == 0 {
    } else if cat[0].name == d.name {
        assert((seq![d] + cat.drop_first())[0] == d);
    } else {
        lemma_upsert_establishes(cat.drop_first(), d);
        assert((seq![cat[0]] + upsert(cat.drop_first(), d)).drop_first() =~= upsert(
            cat.drop_first(),
            d,
        ));
        assert((seq![cat[0]] + upsert(cat.drop_first(), d))[0] == cat[0]);
    }
}

proof fn lemma_upsert_preserves_other(cat: Seq<CommandModel>, d: CommandModel, e: CommandModel)
    requires
        e.name != d.name,
    ensures
        first_holds(upsert(cat, d), e) == first_holds(cat, e),
    decreases cat.len(),
{
    if cat.len() == 0 {
        assert((seq![d]).drop_first() =~= Seq::<CommandModel>::empty());
        assert((seq![d])[0] == d);
        assert(!first_holds(Seq::<CommandModel>::empty(), e));
    } else if cat[0].name == d.name {
        assert((seq![d] + cat.drop_first()).drop_first() =~= cat.drop_first());
        assert((seq![d] + cat.drop_first())[0] == d);
    } else {
        lemma_upsert_preserves_other(cat.drop_first(), d, e);
        assert((seq![cat[0]] + upsert(cat.drop_first(), d)).drop_first() =~= upsert(
            cat.drop_first(),
            d,
        ));
        assert((seq![cat[0]] + upsert(cat.drop_first(), d))[0] == cat[0]);
    }
}

proof fn lemma_upsert_noop(cat: Seq<CommandModel>, d: CommandModel)
    requires
        first_holds(cat, d),
    ensures
        upsert(cat, d) == cat,
    decreases cat.len(),
{
    if cat[0].name == d.name {
        assert(seq![d] + cat.drop_first() =~= cat);
    } else {
        lemma_upsert_noop(cat.drop_first(), d);
        assert(seq![cat[0]] + cat.drop_first() =~= cat);
    }
}

proof fn lemma_register_preserves(cat: Seq<CommandModel>, ds: Seq<CommandModel>, d: CommandModel)
    requires
        first_holds(cat, d),
        forall|j: int| 0 <= j < ds.len() ==> ds[j].name != d.name,
    ensures
        first_holds(register_all(cat, ds), d),
    decreases ds.len(),
{
    if ds.len() > 0 {
        lemma_upsert_preserves_other(cat, ds[0], d);
        assert(forall|j: int| 0 <= j < ds.drop_first().len() ==> ds.drop_first()[j].name
            != d.name);
        lemma_register_preserves(upsert(cat, ds[0]), ds.drop_first(), d);
    }
}

proof fn lemma_register_establishes_all(cat: Seq<CommandModel>, ds: Seq<CommandModel>)
    requires
        unique_names(ds),
    ensures
        forall|i: int| 0 <= i < ds.len() ==> first_holds(register_all(cat, ds), ds[i]),
    decreases ds.len(),
{
    if ds.len() > 0 {
        lemma_upsert_establishes(cat, ds[0]);
        assert(forall|j: int| 0 <= j < ds.drop_first().len() ==> ds.drop_first()[j].name
            != ds[0].name);
        lemma_register_preserves(upsert(cat, ds[0]), ds.drop_first(), ds[0]);
        assert(unique_names(ds.drop_first()));
        lemma_register_establishes_all(upsert(cat, ds[0]), ds.drop_first());
        assert forall|i: int| 0 <= i < ds.len() implies first_holds(
            register_all(cat, ds),
            ds[i],
        ) by {
            if i > 0 {
                assert(ds.drop_first()[i - 1] == ds[i]);
            }
        }
    }
}

proof fn lemma_register_noop(cat: Seq<CommandModel>, ds: Seq<CommandModel>)
    requires
        forall|i: int| 0 <= i < ds.len() ==> first_holds(cat, ds[i]),
    ensures
        register_all(cat, ds) == cat,
    decreases ds.len(),
{
    if ds.len() > 0 {
        lemma_upsert_noop(cat, ds[0]);
        assert(forall|i: int| 0 <= i < ds.drop_first().len() ==> first_holds(
            cat,
            ds.drop_first()[i],
        ));
        lemma_register_noop(cat, ds.drop_first());
    }
}

/// Registration is idempotent: registering a set of uniquely named commands
/// twice leaves the catalog exactly as registering it once — each command
/// overwrites itself and nothing is added.
pub proof fn lemma_register_idempotent(cat: Seq<CommandModel>, ds: Seq<CommandModel>)
    requires
        unique_names(ds),
    ensures
        register_all(register_all(cat, ds), ds) == register_all(cat, ds),
{
    lemma_register_establishes_all(cat, ds);
    lemma_register_noop(register_all(cat, ds), ds);
}

/// The guild that receives the guild-scoped `test` command.
pub const TEST_GUILD_ID: u64 = 705038806893592657;

pub open spec fn spec_ping_command() -> CommandModel {
    CommandModel { name: "ping"@, description: "pong"@, options: Seq::empty() }
}

pub open spec fn spec_user_option() -> OptionModel {
    OptionModel {
        name: "id"@,
        description: "The user to lookup"@,
        kind: OptionKind::User,
        required: true,
    }
}

pub open spec fn spec_id_command() -> CommandModel {
    CommandModel { name: "id"@, description: "Get a user id"@, options: seq![spec_user_option()] }
}

pub open spec fn spec_join_command() -> CommandModel {
    CommandModel { name: "join"@, description: "Joins a Voice Channel."@, options: Seq::empty() }
}

/// The fixed global command set: `ping`, `id` (one required user option),
/// and `join`.
pub open spec fn spec_global_commands() -> Seq<CommandModel> {
    seq![spec_ping_command(), spec_id_command(), spec_join_command()]
}

/// The one guild-scoped command, `test`.
pub open spec fn spec_test_command() -> CommandModel {
    CommandModel { name: "test"@, description: "for testing only"@, options: Seq::empty() }
}

/// Builds the fixed global command set.
pub fn global_commands() -> (v: Vec<CommandDef>)
    ensures
        command_models(v@) == spec_global_commands(),
{
    let mut v: Vec<CommandDef> = Vec::new();
    let ping = CommandDef {
        name: String::from_str("ping"),
        description: String::from_str("pong"),
        options: Vec::new(),
    };
    proof {
        assert(option_models(ping.options@) =~= Seq::<OptionModel>::empty());
    }
    v.push(ping);
    let mut id_opts: Vec<OptionDef> = Vec::new();
    id_opts.push(
        OptionDef {
            name: String::from_str("id"),
            description: String::from_str("The user to lookup"),
            kind: OptionKind::User,
            required: true,
        },
    );
    let id_cmd = CommandDef {
        name: String::from_str("id"),
        description: String::from_str("Get a user id"),
        options: id_opts,
    };
    proof {
        assert(option_models(id_cmd.options@) =~= seq![spec_user_option()]);
    }
    v.push(id_cmd);
    let join_cmd = CommandDef {
        name: String::from_str("join"),
        description: String::from_str("Joins a Voice Channel."),
        options: Vec::new(),
    };
    proof {
        assert(option_models(join_cmd.options@) =~= Seq::<OptionModel>::empty());
    }
    v.push(join_cmd);
    proof {
        assert(command_models(v@) =~= spec_global_commands());
    }
    v
}

/// Builds the guild-scoped `test` command.
pub fn guild_test_command() -> (d: CommandDef)
    ensures
        d@ == spec_test_command(),
{
    let d = CommandDef {
        name: String::from_str("test"),
        description: String::from_str("for testing only"),
        options: Vec::new(),
    };
    proof {
        assert(option_models(d.options@) =~= Seq::<OptionModel>::empty());
    }
    d
}

/// The fixed global set carries three pairwise distinct names, so
/// registering it a second time leaves the catalog exactly where the first
/// registration put it.
pub proof fn lemma_global_registration_idempotent(cat: Seq<CommandModel>)
    ensures
        unique_names(spec_global_commands()),
        register_all(register_all(cat, spec_global_commands()), spec_global_commands())
            == register_all(cat, spec_global_commands()),
{
    reveal_strlit("ping");
    reveal_strlit("id");
    reveal_strlit("join");
    assert("ping"@ != "join"@) by {
        assert("ping"@[0] == 'p' && "join"@[0] == 'j');
    }
    assert(spec_global_commands()[0] == spec_ping_command());
    assert(spec_global_commands()[1] == spec_id_command());
    assert(spec_global_commands()[2] == spec_join_command());
    assert forall|i: int, j: int|
        0 <= i < j < spec_global_commands().len() implies spec_global_commands()[i].name
        != spec_global_commands()[j].name by {
        if i == 0 && j == 1 {
            assert("ping"@.len() != "id"@.len());
        } else if i == 0 && j == 2 {
            assert("ping"@ != "join"@);
        } else {
            assert("id"@.len() != "join"@.len());
        }
    }
    assert(unique_names(spec_global_commands()));
    lemma_register_idempotent(cat, spec_global_commands());
}

/// The remote command catalog, as the bot knows it: a list of commands with
/// upsert registration.
pub struct Catalog {
    defs: Vec<CommandDef>,
}

impl View for Catalog {
    type V = Seq<CommandModel>;

    closed spec fn view(&self) -> Seq<CommandModel> {
        command_models(self.defs@)
    }
}

impl Catalog {
    /// An empty catalog.
    pub fn new() -> (c: Catalog)
        ensures
            c@ == Seq::<CommandModel>::empty(),
    {
        let c = Catalog { defs: Vec::new() };
        proof {
            assert(c@ =~= Seq::<CommandModel>::empty());
        }
        c
    }

    /// How many commands the catalog holds.
    pub fn len(&self) -> (n: usize)
        ensures
            n == self@.len(),
    {
        self.defs.len()
    }

    /// The command at position `i`.
    pub fn get(&self, i: usize) -> (d: &CommandDef)
        requires
            i < self@.len(),
        ensures
            d@ == self@[i as int],
    {
        &self.defs[i]
    }

    fn upsert_one(&mut self, d: CommandDef)
        ensures
            final(self)@ == upsert(old(self)@, d@),
    {
        let ghost dm = d@;
        let n = self.defs.len();
        let mut i: usize = 0;
        while i < n
            invariant
                n == self.defs.len(),
                self.defs@ == old(self).defs@,
                i <= n,
                dm == d@,
                forall|j: int| 0 <= j < i ==> self.defs@[j]@.name != dm.name,
            decreases n - i,
        {
            if str_eq(self.defs[i].name.as_str(), d.name.as_str()) {
                self.defs[i] = d;
                proof {
                    assert(self.defs@ == old(self).defs@.update(i as int, self.defs@[i as int]));
                    assert(forall|j: int| 0 <= j < i ==> old(self)@[j].name != dm.name);
                    assert(old(self)@[i as int].name == dm.name);
                    lemma_upsert_found(old(self)@, dm, i as int);
                    assert(self@ =~= old(self)@.update(i as int, dm));
                }
                return ;
            }
            i += 1;
        }
        self.defs.push(d);
        proof {
            assert(forall|j: int| 0 <= j < old(self)@.len() ==> old(self)@[j].name != dm.name);
            lemma_upsert_missing(old(self)@, dm);
            assert(self@ =~= old(self)@.push(dm));
        }
    }

    /// Registers a command set: each command upserts into the catalog in
    /// order, overwriting a previous command of the same name.
    pub fn register(&mut self, defs: Vec<CommandDef>)
        ensures
            final(self)@ == register_all(old(self)@, command_models(defs@)),
    {
        let ghost all = command_models(defs@);
        let mut ds = defs;
        while ds.len() > 0
            invariant
                register_all(old(self)@, all) == register_all(self@, command_models(ds@)),
            decreases ds.len(),
        {
            let ghost before = command_models(ds@);
            let d = ds.remove(0);
            proof {
                assert(command_models(ds@) =~= before.drop_first());
                assert(before[0] == d@);
            }
            self.upsert_one(d);
        }
        proof {
            assert(command_models(ds@) =~= Seq::<CommandModel>::empty());
        }
    }
}

} // verus!
