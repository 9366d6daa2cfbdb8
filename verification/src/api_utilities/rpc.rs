//! The TypeScript module that front ends use to call the backend's
//! services: the exported types, then one object per plugin whose methods
//! call its services. Types and services come out in a fixed order, so that
//! the module only changes where the API does.
use vstd::prelude::*;

verus! {

/// A type exported to the front end: its name, its TypeScript declaration
/// and its documentation comment, if it has one.
pub struct TypeDecl {
    pub name: String,
    pub decl: String,
    pub docs: Option<String>,
}

/// An argument or the result of a service, with its TypeScript type as a
/// declaration `export type FunctionArgument = <type>;`, from which the type is
/// cut.
pub struct ServiceArgument {
    pub id: String,
    pub val_type: String,
}

/// A service that a plugin offers to front ends.
pub struct ServiceDescription {
    pub plugin_id: String,
    pub id: String,
    pub description: String,
    pub arguments: Vec<ServiceArgument>,
    pub returns: Option<ServiceArgument>,
}

/// `a` comes before `b`, or equals it, in the order of strings: character
/// by character by code point, a prefix first.
pub open spec fn lex_le(a: Seq<char>, b: Seq<char>) -> bool
    decreases a.len(),
{
    if a.len() == 0 {
        true
    } else if b.len() == 0 {
        false
    } else if (a[0] as u32) < (b[0] as u32) {
        true
    } else if (a[0] as u32) > (b[0] as u32) {
        false
    } else {
        lex_le(a.drop_first(), b.drop_first())
    }
}

/// Whether `a` comes before `b` or equals it.
fn text_le(a: &str, b: &str) -> (r: bool)
    ensures
        r == lex_le(a@, b@),
{
    let la = a.unicode_len();
    let lb = b.unicode_len();
    let mut k: usize = 0;
    assert(a@.skip(0) =~= a@ && b@.skip(0) =~= b@);
    while k < la && k < lb
        invariant
            la == a@.len(),
            lb == b@.len(),
            k <= la,
            k <= lb,
            lex_le(a@, b@) == lex_le(a@.skip(k as int), b@.skip(k as int)),
        decreases la - k,
    {
        let ca = a.get_char(k);
        let cb = b.get_char(k);
        assert(a@.skip(k as int)[0] == ca && b@.skip(k as int)[0] == cb);
        if (ca as u32) < (cb as u32) {
            return true;
        }
        if (ca as u32) > (cb as u32) {
            return false;
        }
        assert(a@.skip(k as int).drop_first() =~= a@.skip(k + 1));
        assert(b@.skip(k as int).drop_first() =~= b@.skip(k + 1));
        k = k + 1;
    }
    assert(k == la ==> a@.skip(k as int).len() == 0);
    k == la
}

/// The order `order` of positions with `i` placed after the last one that
/// comes before it or ties with it by `le`, scanning from the end: placing
/// each position of a list this way, in turn, sorts it stably.
pub open spec fn insert_by(le: spec_fn(int, int) -> bool, order: Seq<int>, i: int) -> Seq<int>
    decreases order.len(),
{
    if order.len() == 0 {
        seq![i]
    } else if le(order.last(), i) {
        order.push(i)
    } else {
        insert_by(le, order.drop_last(), i).push(order.last())
    }
}

/// The positions `0..n` sorted stably by `le`.
pub open spec fn sorted_by(le: spec_fn(int, int) -> bool, n: nat) -> Seq<int>
    decreases n,
{
    if n == 0 {
        Seq::empty()
    } else {
        insert_by(le, sorted_by(le, (n - 1) as nat), n - 1)
    }
}

/// Placing `i` where the scan from the end stops, at `p`, is inserting it
/// there.
proof fn lemma_insert_at(le: spec_fn(int, int) -> bool, order: Seq<int>, i: int, p: int)
    requires
        0 <= p <= order.len(),
        p > 0 ==> le(order[p - 1], i),
        forall|k: int| p <= k < order.len() ==> !le(#[trigger] order[k], i),
    ensures
        insert_by(le, order, i) == order.insert(p, i),
    decreases order.len(),
{
    if order.len() == 0 {
        assert(order.insert(p, i) =~= seq![i]);
    } else if p == order.len() {
        assert(order.insert(p, i) =~= order.push(i));
    } else {
        assert(!le(order[order.len() - 1], i));
        let rest = order.drop_last();
        assert forall|k: int| p <= k < rest.len() implies !le(#[trigger] rest[k], i) by {
            assert(rest[k] == order[k]);
        }
        lemma_insert_at(le, rest, i, p);
        assert(rest.insert(p, i).push(order.last()) =~= order.insert(p, i));
    }
}

/// The order of types: by name, types of one name in the order given.
pub open spec fn type_le(types: Seq<TypeDecl>) -> spec_fn(int, int) -> bool {
    |a: int, b: int| lex_le(types[a].name@, types[b].name@)
}

/// The positions of `types` in the order they are exported.
pub open spec fn type_order(types: Seq<TypeDecl>) -> Seq<int> {
    sorted_by(type_le(types), types.len())
}

/// The positions of `types`, sorted by name.
fn sort_types(types: &Vec<TypeDecl>) -> (r: Vec<usize>)
    ensures
        r@.map_values(|k: usize| k as int) == type_order(types@),
        forall|k: int| 0 <= k < r@.len() ==> r@[k] < types@.len(),
{
    let ghost le = type_le(types@);
    let mut order: Vec<usize> = Vec::new();
    let mut i: usize = 0;
    while i < types.len()
        invariant
            i <= types@.len(),
            le == type_le(types@),
            order@.map_values(|k: usize| k as int) == sorted_by(le, i as nat),
            forall|k: int| 0 <= k < order@.len() ==> order@[k] < i,
        decreases types@.len() - i,
    {
        let ghost before = order@.map_values(|k: usize| k as int);
        let mut p: usize = order.len();
        while p > 0 && !text_le(types[order[p - 1]].name.as_str(), types[i].name.as_str())
            invariant
                p <= order@.len(),
                i < types@.len(),
                before == order@.map_values(|k: usize| k as int),
                le == type_le(types@),
                forall|k: int| 0 <= k < order@.len() ==> order@[k] < i,
                forall|k: int| p <= k < order@.len() ==> !le(#[trigger] before[k], i as int),
            decreases p,
        {
            p = p - 1;
        }
        proof {
            lemma_insert_at(le, before, i as int, p as int);
        }
        order.insert(p, i);
        assert(order@.map_values(|k: usize| k as int) =~= before.insert(p as int, i as int));
        i = i + 1;
    }
    order
}

/// The documentation comment given to a type that has none.
pub open spec fn undocumented() -> Seq<char> {
    "/** This type is currently undocumented. I will be working to resolve this for all types in the near future. */"@
}

/// A type's block: its documentation comment, then its declaration.
pub open spec fn type_block(t: TypeDecl) -> Seq<char> {
    let docs = match t.docs {
        Some(d) => d@,
        None => undocumented(),
    };
    docs + "\n"@ + t.decl@
}

/// The blocks of the types at positions `order`, with a blank line between
/// two blocks.
pub open spec fn types_text(types: Seq<TypeDecl>, order: Seq<int>) -> Seq<char>
    decreases order.len(),
{
    if order.len() == 0 {
        Seq::empty()
    } else if order.len() == 1 {
        type_block(types[order[0]])
    } else {
        types_text(types, order.drop_last()) + "\n\n"@ + type_block(types[order.last()])
    }
}

/// Writes the blocks of the types at positions `order`.
fn append_types(out: &mut String, types: &Vec<TypeDecl>, order: &Vec<usize>)
    requires
        forall|k: int| 0 <= k < order@.len() ==> order@[k] < types@.len(),
    ensures
        final(out)@ == old(out)@ + types_text(types@, order@.map_values(|k: usize| k as int)),
{
    let ghost ord = order@.map_values(|k: usize| k as int);
    let mut k: usize = 0;
    assert(old(out)@ + types_text(types@, ord.take(0)) =~= old(out)@);
    while k < order.len()
        invariant
            k <= order@.len(),
            ord == order@.map_values(|k: usize| k as int),
            forall|j: int| 0 <= j < order@.len() ==> order@[j] < types@.len(),
            out@ == old(out)@ + types_text(types@, ord.take(k as int)),
        decreases order@.len() - k,
    {
        let t = &types[order[k]];
        assert(ord.take(k + 1).drop_last() =~= ord.take(k as int));
        assert(ord.take(k + 1).last() == order@[k as int] as int);
        if k > 0 {
            out.append("\n\n");
        }
        match &t.docs {
            Some(d) => out.append(d.as_str()),
            None => out.append(
                "/** This type is currently undocumented. I will be working to resolve this for all types in the near future. */",
            ),
        }
        out.append("\n");
        out.append(t.decl.as_str());
        k = k + 1;
    }
    assert(ord.take(order@.len() as int) =~= ord);
}

/// The order of services: by plugin, then by id, services that tie in the
/// order given.
pub open spec fn service_le(services: Seq<ServiceDescription>) -> spec_fn(int, int) -> bool {
    |a: int, b: int|
        if services[a].plugin_id@ == services[b].plugin_id@ {
            lex_le(services[a].id@, services[b].id@)
        } else {
            lex_le(services[a].plugin_id@, services[b].plugin_id@)
        }
}

/// The positions of `services` in the order they are exported.
pub open spec fn service_order(services: Seq<ServiceDescription>) -> Seq<int> {
    sorted_by(service_le(services), services.len())
}

/// Whether service `a` comes before service `b` or ties with it.
fn service_before(a: &ServiceDescription, b: &ServiceDescription) -> (r: bool)
    ensures
        r == (if a.plugin_id@ == b.plugin_id@ {
            lex_le(a.id@, b.id@)
        } else {
            lex_le(a.plugin_id@, b.plugin_id@)
        }),
{
    if a.plugin_id == b.plugin_id {
        text_le(a.id.as_str(), b.id.as_str())
    } else {
        text_le(a.plugin_id.as_str(), b.plugin_id.as_str())
    }
}

/// The positions of `services`, sorted by plugin and id.
fn sort_services(services: &Vec<ServiceDescription>) -> (r: Vec<usize>)
    ensures
        r@.map_values(|k: usize| k as int) == service_order(services@),
        forall|k: int| 0 <= k < r@.len() ==> r@[k] < services@.len(),
{
    let ghost le = service_le(services@);
    let mut order: Vec<usize> = Vec::new();
    let mut i: usize = 0;
    while i < services.len()
        invariant
            i <= services@.len(),
            le == service_le(services@),
            order@.map_values(|k: usize| k as int) == sorted_by(le, i as nat),
            forall|k: int| 0 <= k < order@.len() ==> order@[k] < i,
        decreases services@.len() - i,
    {
        let ghost before = order@.map_values(|k: usize| k as int);
        let mut p: usize = order.len();
        while p > 0 && !service_before(&services[order[p - 1]], &services[i])
            invariant
                p <= order@.len(),
                i < services@.len(),
                before == order@.map_values(|k: usize| k as int),
                le == service_le(services@),
                forall|k: int| 0 <= k < order@.len() ==> order@[k] < i,
                forall|k: int| p <= k < order@.len() ==> !le(#[trigger] before[k], i as int),
            decreases p,
        {
            p = p - 1;
        }
        proof {
            lemma_insert_at(le, before, i as int, p as int);
        }
        order.insert(p, i);
        assert(order@.map_values(|k: usize| k as int) =~= before.insert(p as int, i as int));
        i = i + 1;
    }
    order
}

/// A TypeScript type cut from its declaration `export type FunctionArgument =
/// <type>;`: from the 32nd character to the one before the last.
pub open spec fn arg_type(val_type: Seq<char>) -> Seq<char> {
    val_type.subrange(31, val_type.len() - 1)
}

/// An argument whose type can be cut from its declaration.
pub open spec fn arg_cuttable(a: ServiceArgument) -> bool {
    a.val_type@.len() >= 32
}

/// An argument with its type, as a parameter of a method.
pub open spec fn typed_arg(a: ServiceArgument) -> Seq<char> {
    a.id@ + ": "@ + arg_type(a.val_type@)
}

/// The parameters of a method, separated by commas.
pub open spec fn typed_args(args: Seq<ServiceArgument>) -> Seq<char>
    decreases args.len(),
{
    if args.len() == 0 {
        Seq::empty()
    } else if args.len() == 1 {
        typed_arg(args[0])
    } else {
        typed_args(args.drop_last()) + ", "@ + typed_arg(args.last())
    }
}

/// The names of the arguments, separated by commas.
pub open spec fn arg_names(args: Seq<ServiceArgument>) -> Seq<char>
    decreases args.len(),
{
    if args.len() == 0 {
        Seq::empty()
    } else if args.len() == 1 {
        args[0].id@
    } else {
        arg_names(args.drop_last()) + ", "@ + args.last().id@
    }
}

/// The type that a method's promise resolves to.
pub open spec fn return_type(returns: Option<ServiceArgument>) -> Seq<char> {
    match returns {
        Some(a) => arg_type(a.val_type@),
        None => "void"@,
    }
}

/// The method that calls a service: its description as a comment, then the
/// method, which hands its arguments to `callService`.
pub open spec fn service_line(s: ServiceDescription) -> Seq<char> {
    "\t/** "@ + s.description@ + " */\n\t"@ + s.id@ + "("@ + typed_args(s.arguments@) + "): Promise<"@
        + return_type(s.returns) + "> { return callService(\""@ + s.plugin_id@ + "\", \""@ + s.id@
        + "\", ["@ + arg_names(s.arguments@) + "]) },\n"@
}

/// The opening of a plugin's object.
pub open spec fn plugin_header(plugin_id: Seq<char>) -> Seq<char> {
    "\nexport const "@ + plugin_id + " = {\n"@
}

/// The methods of the services at positions `order`, each plugin's in an
/// object of its own, the last object left open.
pub open spec fn modules_prefix(services: Seq<ServiceDescription>, order: Seq<int>) -> Seq<char>
    decreases order.len(),
{
    if order.len() == 0 {
        Seq::empty()
    } else {
        let s = services[order.last()];
        let before = order.drop_last();
        let opening = if before.len() == 0 {
            plugin_header(s.plugin_id@)
        } else if services[before.last()].plugin_id@ == s.plugin_id@ {
            Seq::empty()
        } else {
            "};\n"@ + plugin_header(s.plugin_id@)
        };
        modules_prefix(services, before) + opening + service_line(s)
    }
}

/// The objects of all plugins, closed.
pub open spec fn modules_text(services: Seq<ServiceDescription>, order: Seq<int>) -> Seq<char> {
    modules_prefix(services, order) + if order.len() > 0 {
        "};\n"@
    } else {
        Seq::empty()
    }
}

/// The module: the import of `callService`, the exported types sorted by
/// name, then the objects of the plugins sorted by plugin id, each with the
/// methods of its services sorted by id.
pub open spec fn rpc_text(types: Seq<TypeDecl>, services: Seq<ServiceDescription>) -> Seq<char> {
    "import { callService } from \"./agnostic_abstractions\";\n\n\n"@ + types_text(types, type_order(types))
        + "\n\n"@ + modules_text(services, service_order(services)) + "\n"@
}

/// Writes an argument's type cut from its declaration.
fn append_arg_type(out: &mut String, a: &ServiceArgument)
    requires
        arg_cuttable(*a),
    ensures
        final(out)@ == old(out)@ + arg_type(a.val_type@),
{
    let t = a.val_type.as_str();
    let len = t.unicode_len();
    out.append(t.substring_char(31, len - 1));
}

/// Writes the parameters of a method.
fn append_typed_args(out: &mut String, args: &Vec<ServiceArgument>)
    requires
        forall|k: int| 0 <= k < args@.len() ==> arg_cuttable(#[trigger] args@[k]),
    ensures
        final(out)@ == old(out)@ + typed_args(args@),
{
    let mut k: usize = 0;
    assert(old(out)@ + typed_args(args@.take(0)) =~= old(out)@);
    while k < args.len()
        invariant
            k <= args@.len(),
            forall|j: int| 0 <= j < args@.len() ==> arg_cuttable(#[trigger] args@[j]),
            out@ == old(out)@ + typed_args(args@.take(k as int)),
        decreases args@.len() - k,
    {
        assert(args@.take(k + 1).drop_last() =~= args@.take(k as int));
        if k > 0 {
            out.append(", ");
        }
        out.append(args[k].id.as_str());
        out.append(": ");
        append_arg_type(out, &args[k]);
        k = k + 1;
    }
    assert(args@.take(args@.len() as int) =~= args@);
}

/// Writes the names of the arguments.
fn append_arg_names(out: &mut String, args: &Vec<ServiceArgument>)
    ensures
        final(out)@ == old(out)@ + arg_names(args@),
{
    let mut k: usize = 0;
    assert(old(out)@ + arg_names(args@.take(0)) =~= old(out)@);
    while k < args.len()
        invariant
            k <= args@.len(),
            out@ == old(out)@ + arg_names(args@.take(k as int)),
        decreases args@.len() - k,
    {
        assert(args@.take(k + 1).drop_last() =~= args@.take(k as int));
        if k > 0 {
            out.append(", ");
        }
        out.append(args[k].id.as_str());
        k = k + 1;
    }
    assert(args@.take(args@.len() as int) =~= args@);
}

/// The arguments and the result of `s` can be cut from their declarations.
pub open spec fn service_cuttable(s: ServiceDescription) -> bool {
    &&& forall|k: int| 0 <= k < s.arguments@.len() ==> arg_cuttable(#[trigger] s.arguments@[k])
    &&& s.returns matches Some(a) ==> arg_cuttable(a)
}

/// Writes the method of a service.
fn append_service_line(out: &mut String, s: &ServiceDescription)
    requires
        service_cuttable(*s),
    ensures
        final(out)@ == old(out)@ + service_line(*s),
{
    out.append("\t/** ");
    out.append(s.description.as_str());
    out.append(" */\n\t");
    out.append(s.id.as_str());
    out.append("(");
    append_typed_args(out, &s.arguments);
    out.append("): Promise<");
    match &s.returns {
        Some(a) => append_arg_type(out, a),
        None => out.append("void"),
    }
    out.append("> { return callService(\"");
    out.append(s.plugin_id.as_str());
    out.append("\", \"");
    out.append(s.id.as_str());
    out.append("\", [");
    append_arg_names(out, &s.arguments);
    out.append("]) },\n");
}

/// Writes the objects of the plugins for the services at positions `order`.
fn append_modules(out: &mut String, services: &Vec<ServiceDescription>, order: &Vec<usize>)
    requires
        forall|k: int| 0 <= k < order@.len() ==> order@[k] < services@.len(),
        forall|k: int| 0 <= k < services@.len() ==> service_cuttable(#[trigger] services@[k]),
    ensures
        final(out)@ == old(out)@ + modules_text(services@, order@.map_values(|k: usize| k as int)),
{
    let ghost ord = order@.map_values(|k: usize| k as int);
    let mut k: usize = 0;
    assert(old(out)@ + modules_prefix(services@, ord.take(0)) =~= old(out)@);
    while k < order.len()
        invariant
            k <= order@.len(),
            ord == order@.map_values(|k: usize| k as int),
            forall|j: int| 0 <= j < order@.len() ==> order@[j] < services@.len(),
            forall|j: int| 0 <= j < services@.len() ==> service_cuttable(#[trigger] services@[j]),
            out@ == old(out)@ + modules_prefix(services@, ord.take(k as int)),
        decreases order@.len() - k,
    {
        let s = &services[order[k]];
        assert(ord.take(k + 1).drop_last() =~= ord.take(k as int));
        assert(ord.take(k + 1).last() == order@[k as int] as int);
        if k == 0 {
            out.append("\nexport const ");
            out.append(s.plugin_id.as_str());
            out.append(" = {\n");
        } else if services[order[k - 1]].plugin_id != s.plugin_id {
            assert(ord.take(k as int).last() == order@[k - 1] as int);
            out.append("};\n");
            out.append("\nexport const ");
            out.append(s.plugin_id.as_str());
            out.append(" = {\n");
        } else {
            assert(ord.take(k as int).last() == order@[k - 1] as int);
        }
        append_service_line(out, s);
        k = k + 1;
    }
    assert(ord.take(order@.len() as int) =~= ord);
    if order.len() > 0 {
        out.append("};\n");
    }
}

/// The TypeScript module through which front ends call the services, for
/// the types and services that the backend exports. Each service's argument
/// and result types are cut from their declarations by character.
pub fn rpc_module_text(types: &Vec<TypeDecl>, services: &Vec<ServiceDescription>) -> (r: String)
    requires
        forall|k: int| 0 <= k < services@.len() ==> service_cuttable(#[trigger] services@[k]),
    ensures
        r@ == rpc_text(types@, services@),
{
    let type_positions = sort_types(types);
    let service_positions = sort_services(services);
    let mut out = String::new();
    out.append("import { callService } from \"./agnostic_abstractions\";\n\n\n");
    append_types(&mut out, types, &type_positions);
    out.append("\n\n");
    append_modules(&mut out, services, &service_positions);
    out.append("\n");
    out
}

} // verus!
