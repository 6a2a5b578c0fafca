//! The command-tree generator: a catalog of services and methods becomes
//! a two-level command hierarchy, with streaming methods excluded and
//! command names derived from the catalog names.

use vstd::prelude::*;

use crate::visit::LeafArgument;
use crate::visit::TCFieldType;
use crate::visit::leaves_view;
use crate::visit::spec_leaves;

verus! {

/// One method of a service: its name, the shape of its request type, and
/// whether its request or response streams.
#[derive(Debug)]
pub struct MethodDescriptor {
    pub name: String,
    pub input_schema: TCFieldType,
    pub client_streaming: bool,
    pub server_streaming: bool,
}

/// One service: its name and its methods in declaration order.
#[derive(Debug)]
pub struct ServiceDescriptor {
    pub name: String,
    pub methods: Vec<MethodDescriptor>,
}

/// A leaf command of the generated tree: the command name shown to the
/// user, the method name it dispatches to, the method's request schema,
/// and the flags compiled from that schema.
#[derive(Debug)]
pub struct MethodCommand {
    pub name: String,
    pub method_name: String,
    pub input_schema: TCFieldType,
    pub args: Vec<LeafArgument>,
}

/// A command group for one service.
#[derive(Debug)]
pub struct ServiceCommand {
    pub name: String,
    pub service_name: String,
    pub methods: Vec<MethodCommand>,
}

/// The two-level command tree: service, then method.
#[derive(Debug)]
pub struct CommandTree {
    pub services: Vec<ServiceCommand>,
}

/// Why generation failed: two services carry the same name.
#[derive(Debug, PartialEq, Eq)]
pub enum GenError {
    DuplicateService { name: String },
}

/// Whether a character is an ASCII uppercase letter.
pub open spec fn spec_is_upper(c: char) -> bool {
    65 <= (c as u32) <= 90
}

/// Whether a character is an ASCII lowercase letter or digit.
pub open spec fn spec_is_lower_or_digit(c: char) -> bool {
    97 <= (c as u32) <= 122 || 48 <= (c as u32) <= 57
}

/// The lowercase counterpart of an ASCII uppercase letter.
pub open spec fn spec_lower(c: char) -> char {
    (((c as u32) + 32) as char)
}

/// What one character contributes to a kebab-case name: an uppercase
/// letter is lowercased, and separated by a dash from a preceding
/// lowercase letter or digit; an underscore becomes a dash; anything else
/// passes through.
pub open spec fn spec_kebab_frag(c: char, prev: char, first: bool) -> Seq<char> {
    if spec_is_upper(c) {
        let sep: Seq<char> = if !first && spec_is_lower_or_digit(prev) {
            seq!['-']
        } else {
            Seq::empty()
        };
        sep + seq![spec_lower(c)]
    } else if c == '_' {
        seq!['-']
    } else {
        seq![c]
    }
}

/// The kebab-case rendering of a name.
pub open spec fn spec_kebab(s: Seq<char>) -> Seq<char>
    decreases s,
{
    if s.len() == 0 {
        Seq::empty()
    } else {
        spec_kebab(s.drop_last()) + spec_kebab_frag(
            s.last(),
            if s.len() >= 2 {
                s[s.len() - 2]
            } else {
                s.last()
            },
            s.len() == 1,
        )
    }
}

/// The name a catalog entry contributes to the command surface: its
/// kebab-case rendering for an ASCII name, the name itself otherwise.
pub open spec fn spec_command_name(s: Seq<char>) -> Seq<char> {
    if vstd::utf8::is_ascii_chars(s) {
        spec_kebab(s)
    } else {
        s
    }
}

/// Render a catalog name as a command name: uppercase letters are
/// lowercased with a dash before each word, underscores become dashes.
/// A name that is not ASCII is kept as it is.
pub fn kebab_case(name: &str) -> (r: String)
    ensures
        r@ == spec_command_name(name@),
{
    if !name.is_ascii() {
        return name.to_owned();
    }
    let n = name.unicode_len();
    let mut out = String::new();
    let mut i: usize = 0;
    proof {
        assert(name@.take(0) =~= Seq::<char>::empty());
    }
    while i < n
        invariant
            i <= n,
            n == name@.len(),
            vstd::utf8::is_ascii_chars(name@),
            out@ == spec_kebab(name@.take(i as int)),
        decreases n - i,
    {
        let c = name.get_char(i);
        let u = c as u32;
        let ghost pre = name@.take(i as int);
        let ghost now = name@.take(i as int + 1);
        proof {
            assert(now.drop_last() =~= pre);
            assert(now.last() == name@[i as int]);
        }
        if 65 <= u && u <= 90 {
            if i > 0 {
                let p = name.get_char(i - 1);
                let pu = p as u32;
                if (97 <= pu && pu <= 122) || (48 <= pu && pu <= 57) {
                    out.append("-");
                    proof {
                        reveal_strlit("-");
                        assert("-"@ =~= seq!['-']);
                    }
                }
            }
            let idx = (u - 65) as usize;
            let lower_abc = "abcdefghijklmnopqrstuvwxyz";
            proof {
                reveal_strlit("abcdefghijklmnopqrstuvwxyz");
                vstd::string::is_ascii_spec_bytes(lower_abc);
            }
            out.append(lower_abc.substring_char(idx, idx + 1));
            proof {
                assert(lower_abc@.subrange(idx as int, idx as int + 1) =~= seq![
                    lower_abc@[idx as int]
                ]);
                assert(lower_abc@[idx as int] == spec_lower(c));
                assert(out@ =~= spec_kebab(now));
            }
        } else if c == '_' {
            out.append("-");
            proof {
                reveal_strlit("-");
                assert("-"@ =~= seq!['-']);
                assert(out@ =~= spec_kebab(now));
            }
        } else {
            out.append(name.substring_char(i, i + 1));
            proof {
                assert(name@.subrange(i as int, i as int + 1) =~= seq![name@[i as int]]);
                assert(out@ =~= spec_kebab(now));
            }
        }
        i += 1;
    }
    proof {
        assert(name@.take(n as int) =~= name@);
    }
    out
}

/// Whether a character is an ASCII lowercase letter.
pub open spec fn spec_is_lower(c: char) -> bool {
    97 <= (c as u32) <= 122
}

/// The uppercase counterpart of an ASCII lowercase letter.
pub open spec fn spec_upper(c: char) -> char {
    (((c as u32) - 32) as char)
}

/// The uppercase rendering of a name: ASCII lowercase letters are
/// uppercased, everything else passes through.
pub open spec fn spec_upper_ascii(s: Seq<char>) -> Seq<char>
    decreases s,
{
    if s.len() == 0 {
        Seq::empty()
    } else {
        spec_upper_ascii(s.drop_last()) + (if spec_is_lower(s.last()) {
            seq![spec_upper(s.last())]
        } else {
            seq![s.last()]
        })
    }
}

/// The display name a leaf's value is shown under: the field name
/// uppercased for an ASCII name, the name itself otherwise.
pub open spec fn spec_value_name(s: Seq<char>) -> Seq<char> {
    if vstd::utf8::is_ascii_chars(s) {
        spec_upper_ascii(s)
    } else {
        s
    }
}

/// Render a field name as a value display name: uppercase its ASCII
/// lowercase letters. A name that is not ASCII is kept as it is.
pub fn upper_ascii(name: &str) -> (r: String)
    ensures
        r@ == spec_value_name(name@),
{
    if !name.is_ascii() {
        return name.to_owned();
    }
    let n = name.unicode_len();
    let mut out = String::new();
    let mut i: usize = 0;
    proof {
        assert(name@.take(0) =~= Seq::<char>::empty());
    }
    while i < n
        invariant
            i <= n,
            n == name@.len(),
            vstd::utf8::is_ascii_chars(name@),
            out@ == spec_upper_ascii(name@.take(i as int)),
        decreases n - i,
    {
        let c = name.get_char(i);
        let u = c as u32;
        let ghost pre = name@.take(i as int);
        let ghost now = name@.take(i as int + 1);
        proof {
            assert(now.drop_last() =~= pre);
            assert(now.last() == name@[i as int]);
        }
        if 97 <= u && u <= 122 {
            let idx = (u - 97) as usize;
            let upper_abc = "ABCDEFGHIJKLMNOPQRSTUVWXYZ";
            proof {
                reveal_strlit("ABCDEFGHIJKLMNOPQRSTUVWXYZ");
            }
            out.append(upper_abc.substring_char(idx, idx + 1));
            proof {
                assert(upper_abc@.subrange(idx as int, idx as int + 1) =~= seq![
                    upper_abc@[idx as int]
                ]);
                assert(upper_abc@[idx as int] == spec_upper(c));
                assert(out@ =~= spec_upper_ascii(now));
            }
        } else {
            out.append(name.substring_char(i, i + 1));
            proof {
                assert(name@.subrange(i as int, i as int + 1) =~= seq![name@[i as int]]);
                assert(out@ =~= spec_upper_ascii(now));
            }
        }
        i += 1;
    }
    proof {
        assert(name@.take(n as int) =~= name@);
    }
    out
}

/// The methods that survive filtering: every method whose request and
/// response are single values, in declaration order. Streaming methods
/// are excluded outright.
pub open spec fn spec_non_streaming(ms: Seq<MethodDescriptor>) -> Seq<MethodDescriptor>
    decreases ms,
{
    if ms.len() == 0 {
        Seq::empty()
    } else {
        let front = spec_non_streaming(ms.drop_last());
        if ms.last().client_streaming || ms.last().server_streaming {
            front
        } else {
            front.push(ms.last())
        }
    }
}

/// Streaming exclusion: a service with one streaming and one
/// non-streaming method keeps exactly the non-streaming one.
pub proof fn lemma_streaming_exclusion(ms: Seq<MethodDescriptor>, s: int, k: int)
    requires
        ms.len() == 2,
        0 <= s < 2,
        0 <= k < 2,
        s != k,
        ms[s].client_streaming || ms[s].server_streaming,
        !ms[k].client_streaming,
        !ms[k].server_streaming,
    ensures
        spec_non_streaming(ms) =~= seq![ms[k]],
{
    assert(ms.drop_last().drop_last() =~= Seq::<MethodDescriptor>::empty());
    assert(ms.drop_last().len() == 1);
    assert(ms.drop_last().last() == ms[0]);
    assert(ms.last() == ms[1]);
    let e = Seq::<MethodDescriptor>::empty();
    assert(ms.drop_last().drop_last() == e);
    assert(spec_non_streaming(e) =~= e);
    if s == 0 {
        assert(spec_non_streaming(ms.drop_last()) =~= e);
        assert(spec_non_streaming(ms) =~= e.push(ms[1]));
    } else {
        assert(spec_non_streaming(ms.drop_last()) =~= e.push(ms[0]));
        assert(spec_non_streaming(ms) =~= spec_non_streaming(ms.drop_last()));
    }
}

/// How one generated method command realises one kept method: the
/// command name is the method name's command rendering, the dispatch name
/// and schema are the method's own, and the flags are the schema's
/// compiled leaves.
pub open spec fn spec_method_command_matches(c: MethodCommand, m: MethodDescriptor) -> bool {
    &&& c.name@ == spec_command_name(m.name@)
    &&& c.method_name@ == m.name@
    &&& c.input_schema == m.input_schema
    &&& leaves_view(c.args@) == spec_leaves(m.input_schema, Seq::<Seq<char>>::empty())
}

/// Generate the command group of one service.
fn generate_service(svc: ServiceDescriptor) -> (r: ServiceCommand)
    ensures
        r.name@ == spec_command_name(svc.name@),
        r.service_name@ == svc.name@,
        r.methods@.len() == spec_non_streaming(svc.methods@).len(),
        forall|j: int|
            0 <= j < r.methods@.len() ==> spec_method_command_matches(
                #[trigger] r.methods@[j],
                spec_non_streaming(svc.methods@)[j],
            ),
{
    let ServiceDescriptor { name, mut methods } = svc;
    let cmd_name = kebab_case(name.as_str());
    let mut out: Vec<MethodCommand> = Vec::new();
    let ghost all = methods@;
    let total = methods.len();
    let mut taken: usize = 0;
    proof {
        assert(all.take(0) =~= Seq::<MethodDescriptor>::empty());
    }
    // consume the methods front to back
    while methods.len() > 0
        invariant
            total == all.len(),
            taken + methods@.len() == all.len(),
            methods@ =~= all.skip(taken as int),
            out@.len() == spec_non_streaming(all.take(taken as int)).len(),
            forall|j: int|
                0 <= j < out@.len() ==> spec_method_command_matches(
                    #[trigger] out@[j],
                    spec_non_streaming(all.take(taken as int))[j],
                ),
        decreases methods@.len(),
    {
        let m = methods.remove(0);
        proof {
            assert(all.take(taken as int + 1).drop_last() =~= all.take(taken as int));
            assert(all.take(taken as int + 1).last() == all[taken as int]);
            assert(m == all[taken as int]);
        }
        if !(m.client_streaming || m.server_streaming) {
            let MethodDescriptor { name: mname, input_schema, .. } = m;
            let args = input_schema.visit_nested();
            let cmd = MethodCommand {
                name: kebab_case(mname.as_str()),
                method_name: mname,
                input_schema,
                args,
            };
            out.push(cmd);
        }
        taken += 1;
    }
    proof {
        assert(all.take(all.len() as int) =~= all);
    }
    ServiceCommand { name: cmd_name, service_name: name, methods: out }
}

/// Build the two-level command tree from a catalog of services. Services
/// must carry distinct names; a collision is a configuration error caught
/// here, not at dispatch time.
pub fn generate(services: Vec<ServiceDescriptor>) -> (r: Result<CommandTree, GenError>)
    ensures
        match r {
            Result::Ok(tree) => {
                &&& forall|i: int, j: int|
                    0 <= i < j < tree.services@.len()
                        ==> tree.services@[i].service_name@ != tree.services@[j].service_name@
                &&& tree.services@.len() == services@.len()
                &&& forall|i: int|
                    0 <= i < services@.len() ==> {
                        &&& (#[trigger] tree.services@[i]).name@ == spec_command_name(
                            services@[i].name@,
                        )
                        &&& tree.services@[i].service_name@ == services@[i].name@
                        &&& tree.services@[i].methods@.len() == spec_non_streaming(
                            services@[i].methods@,
                        ).len()
                    }
                &&& forall|i: int, j: int|
                    0 <= i < services@.len() && 0 <= j < tree.services@[i].methods@.len()
                        ==> spec_method_command_matches(
                        #[trigger] tree.services@[i].methods@[j],
                        spec_non_streaming(services@[i].methods@)[j],
                    )
            },
            Result::Err(GenError::DuplicateService { name }) => exists|i: int, j: int|
                0 <= i < j < services@.len() && #[trigger] services@[i].name@
                    == #[trigger] services@[j].name@ && services@[i].name@ == name@,
        },
{
    // reject colliding service names first
    let mut i: usize = 0;
    while i < services.len()
        invariant
            i <= services@.len(),
            forall|a: int, b: int|
                0 <= a < b < services@.len() && a < i ==> services@[a].name@ != services@[
                    b
                ].name@,
        decreases services@.len() - i,
    {
        let mut j: usize = i + 1;
        while j < services.len()
            invariant
                i < j <= services@.len(),
                i < services@.len(),
                forall|b: int| i < b < j ==> services@[i as int].name@ != services@[b].name@,
            decreases services@.len() - j,
        {
            if services[i].name == services[j].name {
                return Err(GenError::DuplicateService { name: services[i].name.clone() });
            }
            j += 1;
        }
        i += 1;
    }
    let mut rest = services;
    let ghost all = rest@;
    let total = rest.len();
    let mut out: Vec<ServiceCommand> = Vec::new();
    let mut taken: usize = 0;
    while rest.len() > 0
        invariant
            total == all.len(),
            taken + rest@.len() == all.len(),
            rest@ =~= all.skip(taken as int),
            out@.len() == taken,
            forall|a: int, b: int| 0 <= a < b < all.len() ==> all[a].name@ != all[b].name@,
            forall|i2: int|
                0 <= i2 < taken ==> {
                    &&& (#[trigger] out@[i2]).name@ == spec_command_name(all[i2].name@)
                    &&& out@[i2].service_name@ == all[i2].name@
                    &&& out@[i2].methods@.len() == spec_non_streaming(all[i2].methods@).len()
                },
            forall|i2: int, j2: int|
                0 <= i2 < taken && 0 <= j2 < out@[i2].methods@.len()
                    ==> spec_method_command_matches(
                    #[trigger] out@[i2].methods@[j2],
                    spec_non_streaming(all[i2].methods@)[j2],
                ),
        decreases rest@.len(),
    {
        let svc = rest.remove(0);
        proof {
            assert(svc == all[taken as int]);
        }
        let sc = generate_service(svc);
        out.push(sc);
        taken += 1;
    }
    Ok(CommandTree { services: out })
}

impl CommandTree {
    /// The first service command carrying the given command name.
    pub fn find_service(&self, name: &String) -> (r: Option<&ServiceCommand>)
        ensures
            match r {
                Option::Some(sc) => exists|i: int|
                    0 <= i < self.services@.len() && #[trigger] self.services@[i].name@ == name@
                        && self.services@[i] == *sc,
                Option::None => forall|i: int|
                    0 <= i < self.services@.len() ==> #[trigger] self.services@[i].name@ != name@,
            },
    {
        let mut i: usize = 0;
        while i < self.services.len()
            invariant
                i <= self.services@.len(),
                forall|a: int| 0 <= a < i ==> #[trigger] self.services@[a].name@ != name@,
            decreases self.services@.len() - i,
        {
            if self.services[i].name == *name {
                return Some(&self.services[i]);
            }
            i += 1;
        }
        None
    }
}

impl ServiceCommand {
    /// The first method command carrying the given command name.
    pub fn find_method(&self, name: &String) -> (r: Option<&MethodCommand>)
        ensures
            match r {
                Option::Some(mc) => exists|i: int|
                    0 <= i < self.methods@.len() && #[trigger] self.methods@[i].name@ == name@
                        && self.methods@[i] == *mc,
                Option::None => forall|i: int|
                    0 <= i < self.methods@.len() ==> #[trigger] self.methods@[i].name@ != name@,
            },
    {
        let mut i: usize = 0;
        while i < self.methods.len()
            invariant
                i <= self.methods@.len(),
                forall|a: int| 0 <= a < i ==> #[trigger] self.methods@[a].name@ != name@,
            decreases self.methods@.len() - i,
        {
            if self.methods[i].name == *name {
                return Some(&self.methods[i]);
            }
            i += 1;
        }
        None
    }
}

} // verus!
