use vstd::prelude::*;

use crate::schema_ast::{
    block_view, blocks_view, member_view, members_view, parse_schema_ast, parse_spec, Block,
    BlockView, Member, MemberView, SchemaAst, SchemaError,
};

verus! {

/// The data part of a schema: its model and enum blocks, in text order.
#[derive(Debug, PartialEq, Eq)]
pub struct Datamodel {
    pub models: Vec<Block>,
    pub enums: Vec<Block>,
}

/// The configuration part of a schema: its datasource and generator
/// blocks, in text order.
#[derive(Debug, PartialEq, Eq)]
pub struct Configuration {
    pub datasources: Vec<Block>,
    pub generators: Vec<Block>,
}

pub open spec fn known_keyword(k: Seq<char>) -> bool {
    k == "model"@ || k == "enum"@ || k == "datasource"@ || k == "generator"@
}

pub open spec fn is_type_block(b: BlockView) -> bool {
    b.0 == "model"@ || b.0 == "enum"@
}

/// A member line `url ...`.
pub open spec fn has_url(b: BlockView) -> bool {
    exists|k: int| 0 <= k < b.2.len() && #[trigger] b.2[k].len() > 0 && b.2[k][0] == "url"@
}

pub open spec fn all_known(bs: Seq<BlockView>) -> bool {
    forall|i: int| 0 <= i < bs.len() ==> known_keyword(#[trigger] bs[i].0)
}

pub open spec fn type_names_distinct(bs: Seq<BlockView>) -> bool {
    forall|i: int, j: int|
        0 <= i < j < bs.len() && is_type_block(#[trigger] bs[i]) && is_type_block(#[trigger] bs[j])
            ==> bs[i].1 != bs[j].1
}

pub open spec fn urls_present(bs: Seq<BlockView>) -> bool {
    forall|i: int| 0 <= i < bs.len() && (#[trigger] bs[i]).0 == "datasource"@ ==> has_url(bs[i])
}

/// The blocks of one keyword, in order.
pub open spec fn blocks_of(bs: Seq<BlockView>, keyword: Seq<char>) -> Seq<BlockView>
    decreases bs.len(),
{
    if bs.len() == 0 {
        seq![]
    } else {
        blocks_of(bs.drop_last(), keyword) + if bs.last().0 == keyword {
            seq![bs.last()]
        } else {
            seq![]
        }
    }
}

/// The first validation a datamodel fails: a block of unknown type, then
/// two models or enums of one name, then (unless urls are ignored) a
/// datasource without url.
pub open spec fn datamodel_error(bs: Seq<BlockView>, ignore_datasource_urls: bool) -> Option<
    SchemaError,
> {
    if !all_known(bs) {
        Some(SchemaError::UnknownBlockType)
    } else if !type_names_distinct(bs) {
        Some(SchemaError::DuplicateName)
    } else if !ignore_datasource_urls && !urls_present(bs) {
        Some(SchemaError::MissingDatasourceUrl)
    } else {
        None
    }
}

pub open spec fn datamodel_result(t: Seq<char>, ignore_datasource_urls: bool, r: Result<
    Datamodel,
    SchemaError,
>) -> bool {
    match parse_spec(t) {
        Err(e) => r == Err::<Datamodel, SchemaError>(e),
        Ok(bs) => match datamodel_error(bs, ignore_datasource_urls) {
            Some(e) => r == Err::<Datamodel, SchemaError>(e),
            None => r matches Ok(dm) && blocks_view(dm.models@) == blocks_of(bs, "model"@)
                && blocks_view(dm.enums@) == blocks_of(bs, "enum"@),
        },
    }
}

pub open spec fn configuration_result(t: Seq<char>, ignore_datasource_urls: bool, r: Result<
    Configuration,
    SchemaError,
>) -> bool {
    match parse_spec(t) {
        Err(e) => r == Err::<Configuration, SchemaError>(e),
        Ok(bs) => if !ignore_datasource_urls && !urls_present(bs) {
            r == Err::<Configuration, SchemaError>(SchemaError::MissingDatasourceUrl)
        } else {
            r matches Ok(c) && blocks_view(c.datasources@) == blocks_of(bs, "datasource"@)
                && blocks_view(c.generators@) == blocks_of(bs, "generator"@)
        },
    }
}

fn is_keyword(s: &String, keyword: &str) -> (r: bool)
    ensures
        r == (s@ == keyword@),
{
    *s == String::from_str(keyword)
}

fn block_has_url(b: &Block) -> (r: bool)
    ensures
        r == has_url(block_view(*b)),
{
    let ghost bv = block_view(*b);
    let mut k: usize = 0;
    while k < b.members.len()
        invariant
            k <= b.members@.len(),
            bv == block_view(*b),
            forall|j: int| 0 <= j < k ==> !(#[trigger] bv.2[j].len() > 0 && bv.2[j][0] == "url"@),
        decreases b.members@.len() - k,
    {
        let m = &b.members[k];
        proof {
            assert(bv.2[k as int] == crate::filter::names(m.words@));
        }
        if m.words.len() > 0 && is_keyword(&m.words[0], "url") {
            return true;
        }
        k += 1;
    }
    false
}

fn check_blocks(blocks: &Vec<Block>, ignore_datasource_urls: bool) -> (r: Option<SchemaError>)
    ensures
        r == datamodel_error(blocks_view(blocks@), ignore_datasource_urls),
{
    let ghost bs = blocks_view(blocks@);
    let mut i: usize = 0;
    while i < blocks.len()
        invariant
            i <= blocks@.len(),
            bs == blocks_view(blocks@),
            forall|j: int| 0 <= j < i ==> known_keyword(#[trigger] bs[j].0),
        decreases blocks@.len() - i,
    {
        let k = &blocks[i].keyword;
        if !(is_keyword(k, "model") || is_keyword(k, "enum") || is_keyword(k, "datasource")
            || is_keyword(k, "generator")) {
            proof {
                assert(bs[i as int].0 == blocks@[i as int].keyword@);
                assert(!known_keyword(bs[i as int].0));
            }
            return Some(SchemaError::UnknownBlockType);
        }
        i += 1;
    }
    proof {
        assert(all_known(bs));
    }
    let mut i: usize = 0;
    while i < blocks.len()
        invariant
            i <= blocks@.len(),
            bs == blocks_view(blocks@),
            all_known(bs),
            forall|a: int, b: int|
                0 <= a < i && a < b < bs.len() && is_type_block(#[trigger] bs[a]) && is_type_block(
                    #[trigger] bs[b],
                ) ==> bs[a].1 != bs[b].1,
        decreases blocks@.len() - i,
    {
        let bi = &blocks[i];
        if is_keyword(&bi.keyword, "model") || is_keyword(&bi.keyword, "enum") {
            let mut j: usize = i + 1;
            while j < blocks.len()
                invariant
                    i < j <= blocks@.len(),
                    bs == blocks_view(blocks@),
                    *bi == blocks@[i as int],
                    all_known(bs),
                    is_type_block(bs[i as int]),
                    forall|b: int|
                        i < b < j && is_type_block(#[trigger] bs[b]) ==> bs[i as int].1 != bs[b].1,
                decreases blocks@.len() - j,
            {
                let bj = &blocks[j];
                proof {
                    assert(bs[j as int] == block_view(blocks@[j as int]));
                    assert(bs[i as int] == block_view(blocks@[i as int]));
                    assert(bj.keyword@ == bs[j as int].0);
                    assert(bj.name@ == bs[j as int].1);
                    assert(bi.name@ == bs[i as int].1);
                }
                if (is_keyword(&bj.keyword, "model") || is_keyword(&bj.keyword, "enum")) && bj.name
                    == bi.name {
                    proof {
                        assert(is_type_block(bs[j as int]) && bs[i as int].1 == bs[j as int].1);
                        assert(!type_names_distinct(bs));
                    }
                    return Some(SchemaError::DuplicateName);
                }
                j += 1;
            }
        }
        i += 1;
    }
    proof {
        assert(type_names_distinct(bs));
    }
    if !ignore_datasource_urls {
        let mut i: usize = 0;
        while i < blocks.len()
            invariant
                i <= blocks@.len(),
                bs == blocks_view(blocks@),
                !ignore_datasource_urls,
                all_known(bs),
                type_names_distinct(bs),
                forall|j: int| 0 <= j < i && (#[trigger] bs[j]).0 == "datasource"@ ==> has_url(bs[j]),
            decreases blocks@.len() - i,
        {
            if is_keyword(&blocks[i].keyword, "datasource") && !block_has_url(&blocks[i]) {
                proof {
                    assert(bs[i as int] == block_view(blocks@[i as int]));
                    assert(!urls_present(bs));
                }
                return Some(SchemaError::MissingDatasourceUrl);
            }
            i += 1;
        }
    }
    None
}

/// Splits the blocks by keyword: those of `first`, those of `second`, in order.
fn split_blocks(blocks: Vec<Block>, first: &str, second: &str) -> (r: (Vec<Block>, Vec<Block>))
    requires
        first@ != second@,
    ensures
        blocks_view(r.0@) == blocks_of(blocks_view(blocks@), first@),
        blocks_view(r.1@) == blocks_of(blocks_view(blocks@), second@),
{
    let ghost all = blocks@;
    let mut rest = blocks;
    let mut a: Vec<Block> = Vec::new();
    let mut b: Vec<Block> = Vec::new();
    proof {
        assert(blocks_view(a@) =~= seq![]);
        assert(blocks_view(all.take(0)) =~= seq![]);
    }
    while rest.len() > 0
        invariant
            first@ != second@,
            rest@.len() <= all.len(),
            rest@ == all.skip(all.len() - rest@.len()),
            blocks_view(a@) == blocks_of(blocks_view(all.take(all.len() - rest@.len())), first@),
            blocks_view(b@) == blocks_of(blocks_view(all.take(all.len() - rest@.len())), second@),
        decreases rest@.len(),
    {
        let ghost done = all.len() - rest@.len();
        let blk = rest.remove(0);
        let ghost bv = block_view(blk);
        proof {
            assert(blk == all[done]);
            assert(blocks_view(all.take(done + 1)).drop_last() =~= blocks_view(all.take(done)));
            assert(blocks_view(all.take(done + 1)).last() == bv);
            assert(rest@ =~= all.skip(done + 1));
        }
        let ghost a0 = a@;
        let ghost b0 = b@;
        let ghost x = blocks_view(all.take(done + 1));
        proof {
            assert(bv.0 == blk.keyword@);
        }
        if blk.keyword == String::from_str(first) {
            a.push(blk);
            proof {
                assert(bv.0 == first@);
                assert(bv.0 != second@);
                assert(blocks_view(b@) == blocks_view(b0));
                assert(blocks_view(a@) =~= blocks_view(a0).push(bv));
            }
        } else if blk.keyword == String::from_str(second) {
            b.push(blk);
            proof {
                assert(blocks_view(b@) =~= blocks_view(b0).push(bv));
            }
        }
        proof {
            assert(blocks_of(x, first@) == blocks_of(x.drop_last(), first@) + if bv.0 == first@ {
                seq![bv]
            } else {
                seq![]
            });
            assert(blocks_of(x, second@) == blocks_of(x.drop_last(), second@) + if bv.0 == second@ {
                seq![bv]
            } else {
                seq![]
            });
            assert(blocks_view(a@) =~= blocks_of(blocks_view(all.take(done + 1)), first@));
            assert(blocks_view(b@) =~= blocks_of(blocks_view(all.take(done + 1)), second@));
        }
    }
    proof {
        assert(all.take(all.len() as int) =~= all);
    }
    (a, b)
}

fn parse_datamodel_internal(datamodel_string: &str, ignore_datasource_urls: bool) -> (r: Result<
    Datamodel,
    SchemaError,
>)
    ensures
        datamodel_result(datamodel_string@, ignore_datasource_urls, r),
{
    let ast = parse_schema_ast(datamodel_string)?;
    if let Some(e) = check_blocks(&ast.blocks, ignore_datasource_urls) {
        return Err(e);
    }
    proof {
        reveal_strlit("model");
        reveal_strlit("enum");
        assert("model"@.len() == 5 && "enum"@.len() == 4);
    }
    let (models, enums) = split_blocks(ast.blocks, "model", "enum");
    Ok(Datamodel { models, enums })
}

/// Reads a schema text in the simplified block syntax of
/// `parse_schema_ast` and checks three rules: every block is a model, enum,
/// datasource or generator; no two models or enums share a name; every
/// datasource has a member line starting with `url`. Returns the model and
/// enum blocks. Members are kept as words, not checked as fields.
pub fn parse_datamodel(datamodel_string: &str) -> (r: Result<Datamodel, SchemaError>)
    ensures
        datamodel_result(datamodel_string@, false, r),
{
    parse_datamodel_internal(datamodel_string, false)
}

/// As `parse_datamodel`, without asking datasources for a url.
pub fn parse_datamodel_and_ignore_datasource_urls(datamodel_string: &str) -> (r: Result<
    Datamodel,
    SchemaError,
>)
    ensures
        datamodel_result(datamodel_string@, true, r),
{
    parse_datamodel_internal(datamodel_string, true)
}

fn parse_configuration_internal(datamodel_string: &str, ignore_datasource_urls: bool) -> (r:
    Result<Configuration, SchemaError>)
    ensures
        configuration_result(datamodel_string@, ignore_datasource_urls, r),
{
    let ast = parse_schema_ast(datamodel_string)?;
    let ghost bs = blocks_view(ast.blocks@);
    proof {
        assert(parse_spec(datamodel_string@) == Ok::<Seq<BlockView>, SchemaError>(bs));
    }
    if !ignore_datasource_urls {
        let mut i: usize = 0;
        while i < ast.blocks.len()
            invariant
                i <= ast.blocks@.len(),
                bs == blocks_view(ast.blocks@),
                !ignore_datasource_urls,
                parse_spec(datamodel_string@) == Ok::<Seq<BlockView>, SchemaError>(bs),
                forall|j: int| 0 <= j < i && (#[trigger] bs[j]).0 == "datasource"@ ==> has_url(bs[j]),
            decreases ast.blocks@.len() - i,
        {
            if is_keyword(&ast.blocks[i].keyword, "datasource") && !block_has_url(&ast.blocks[i]) {
                proof {
                    assert(bs[i as int] == block_view(ast.blocks@[i as int]));
                    assert(!urls_present(bs));
                }
                return Err(SchemaError::MissingDatasourceUrl);
            }
            i += 1;
        }
    }
    proof {
        reveal_strlit("datasource");
        reveal_strlit("generator");
        assert("datasource"@.len() == 10 && "generator"@.len() == 9);
    }
    let (datasources, generators) = split_blocks(ast.blocks, "datasource", "generator");
    Ok(Configuration { datasources, generators })
}

/// Reads a schema text in the simplified block syntax of
/// `parse_schema_ast`, checks that every datasource has a member line
/// starting with `url`, and returns the datasource and generator blocks.
pub fn parse_configuration(datamodel_string: &str) -> (r: Result<Configuration, SchemaError>)
    ensures
        configuration_result(datamodel_string@, false, r),
{
    parse_configuration_internal(datamodel_string, false)
}

/// As `parse_configuration`, without asking datasources for a url.
pub fn parse_configuration_and_ignore_datasource_urls(datamodel_string: &str) -> (r: Result<
    Configuration,
    SchemaError,
>)
    ensures
        configuration_result(datamodel_string@, true, r),
{
    parse_configuration_internal(datamodel_string, true)
}

} // verus!

verus! {

/// The words of a member line, separated by single spaces.
pub open spec fn words_text(ws: Seq<Seq<char>>) -> Seq<char>
    decreases ws.len(),
{
    if ws.len() == 0 {
        seq![]
    } else if ws.len() == 1 {
        ws[0]
    } else {
        words_text(ws.drop_last()) + " "@ + ws.last()
    }
}

/// The member lines of a block, each indented by two spaces.
pub open spec fn members_text(ms: Seq<MemberView>) -> Seq<char>
    decreases ms.len(),
{
    if ms.len() == 0 {
        seq![]
    } else {
        members_text(ms.drop_last()) + "  "@ + words_text(ms.last()) + "\n"@
    }
}

pub open spec fn block_text(b: BlockView) -> Seq<char> {
    b.0 + " "@ + b.1 + " {\n"@ + members_text(b.2) + "}\n"@
}

/// Blocks in order, an empty line before each block but the first of the
/// document (`started` says whether one came before).
pub open spec fn blocks_text(bs: Seq<BlockView>, started: bool) -> Seq<char>
    decreases bs.len(),
{
    if bs.len() == 0 {
        seq![]
    } else {
        blocks_text(bs.drop_last(), started) + (if started || bs.len() > 1 {
            "\n"@
        } else {
            seq![]
        }) + block_text(bs.last())
    }
}

/// The text of a whole schema made of the given blocks.
pub open spec fn document_text(bs: Seq<BlockView>) -> Seq<char> {
    blocks_text(bs, false)
}

proof fn lemma_blocks_text_add(a: Seq<BlockView>, b: Seq<BlockView>, started: bool)
    ensures
        blocks_text(a + b, started) == blocks_text(a, started) + blocks_text(
            b,
            started || a.len() > 0,
        ),
    decreases b.len(),
{
    if b.len() == 0 {
        assert(a + b =~= a);
        assert(blocks_text(a, started) + blocks_text(b, started || a.len() > 0) =~= blocks_text(
            a,
            started,
        ));
    } else {
        lemma_blocks_text_add(a, b.drop_last(), started);
        assert((a + b).drop_last() =~= a + b.drop_last());
        assert((a + b).last() == b.last());
        let s2 = started || a.len() > 0;
        assert(blocks_text(b, s2) == blocks_text(b.drop_last(), s2) + (if s2 || b.len() > 1 {
            "\n"@
        } else {
            seq![]
        }) + block_text(b.last()));
        assert(blocks_text(a + b, started) =~= blocks_text(a, started) + blocks_text(b, s2));
    }
}

fn append_member(out: &mut String, words: &Vec<String>)
    ensures
        final(out)@ == old(out)@ + "  "@ + words_text(crate::filter::names(words@)) + "\n"@,
{
    out.append("  ");
    let ghost base = out@;
    let mut k: usize = 0;
    while k < words.len()
        invariant
            k <= words@.len(),
            out@ == base + words_text(crate::filter::names(words@.take(k as int))),
        decreases words@.len() - k,
    {
        if k > 0 {
            out.append(" ");
        }
        out.append(words[k].as_str());
        proof {
            let t = crate::filter::names(words@.take(k + 1));
            assert(t.drop_last() =~= crate::filter::names(words@.take(k as int)));
            assert(t.last() == words@[k as int]@);
            if k == 0 {
                assert(words_text(crate::filter::names(words@.take(0))) =~= seq![]);
                assert(out@ =~= base + words_text(t));
            } else {
                assert(out@ =~= base + words_text(t));
            }
        }
        k += 1;
    }
    proof {
        assert(words@.take(words@.len() as int) =~= words@);
    }
    out.append("\n");
}

fn append_block(out: &mut String, b: &Block)
    ensures
        final(out)@ == old(out)@ + block_text(block_view(*b)),
{
    out.append(b.keyword.as_str());
    out.append(" ");
    out.append(b.name.as_str());
    out.append(" {\n");
    let ghost base = out@;
    let ghost ms = block_view(*b).2;
    let mut k: usize = 0;
    while k < b.members.len()
        invariant
            k <= b.members@.len(),
            ms == block_view(*b).2,
            out@ == base + members_text(ms.take(k as int)),
        decreases b.members@.len() - k,
    {
        append_member(out, &b.members[k].words);
        proof {
            assert(ms.take(k + 1).drop_last() =~= ms.take(k as int));
            assert(ms.take(k + 1).last() == crate::filter::names(b.members@[k as int].words@));
            assert(out@ =~= base + members_text(ms.take(k + 1)));
        }
        k += 1;
    }
    proof {
        assert(ms.take(ms.len() as int) =~= ms);
    }
    out.append("}\n");
    proof {
        assert(final(out)@ =~= old(out)@ + block_text(block_view(*b)));
    }
}

fn append_blocks(out: &mut String, blocks: &Vec<Block>, started: bool)
    ensures
        final(out)@ == old(out)@ + blocks_text(blocks_view(blocks@), started),
{
    let ghost base = out@;
    let ghost bs = blocks_view(blocks@);
    let mut k: usize = 0;
    while k < blocks.len()
        invariant
            k <= blocks@.len(),
            bs == blocks_view(blocks@),
            out@ == base + blocks_text(bs.take(k as int), started),
        decreases blocks@.len() - k,
    {
        if started || k > 0 {
            out.append("\n");
        }
        append_block(out, &blocks[k]);
        proof {
            assert(bs.take(k + 1).drop_last() =~= bs.take(k as int));
            assert(bs.take(k + 1).last() == block_view(blocks@[k as int]));
            assert(out@ =~= base + blocks_text(bs.take(k + 1), started));
        }
        k += 1;
    }
    proof {
        assert(bs.take(bs.len() as int) =~= bs);
    }
}

/// Renders a syntax tree to schema text.
pub fn render_schema_ast_to_string(schema: &SchemaAst) -> (r: String)
    ensures
        r@ == document_text(blocks_view(schema.blocks@)),
{
    let mut out = String::new();
    append_blocks(&mut out, &schema.blocks, false);
    proof {
        assert(out@ =~= document_text(blocks_view(schema.blocks@)));
    }
    out
}

/// Renders a datamodel to schema text: its models, then its enums.
pub fn render_datamodel_to_string(datamodel: &Datamodel) -> (r: String)
    ensures
        r@ == document_text(blocks_view(datamodel.models@) + blocks_view(datamodel.enums@)),
{
    let mut out = String::new();
    let ghost m = blocks_view(datamodel.models@);
    let ghost e = blocks_view(datamodel.enums@);
    append_blocks(&mut out, &datamodel.models, false);
    append_blocks(&mut out, &datamodel.enums, datamodel.models.len() > 0);
    proof {
        lemma_blocks_text_add(m, e, false);
        assert(out@ =~= document_text(m + e));
    }
    out
}

/// Renders a configuration and a datamodel to schema text: datasources,
/// generators, models, then enums.
pub fn render_datamodel_and_config_to_string(datamodel: &Datamodel, config: &Configuration) -> (r:
    String)
    ensures
        r@ == document_text(
            blocks_view(config.datasources@) + blocks_view(config.generators@) + blocks_view(
                datamodel.models@,
            ) + blocks_view(datamodel.enums@),
        ),
{
    let ghost d = blocks_view(config.datasources@);
    let ghost g = blocks_view(config.generators@);
    let ghost m = blocks_view(datamodel.models@);
    let ghost e = blocks_view(datamodel.enums@);
    let mut out = String::new();
    append_blocks(&mut out, &config.datasources, false);
    let s1 = config.datasources.len() > 0;
    append_blocks(&mut out, &config.generators, s1);
    let s2 = s1 || config.generators.len() > 0;
    append_blocks(&mut out, &datamodel.models, s2);
    let s3 = s2 || datamodel.models.len() > 0;
    append_blocks(&mut out, &datamodel.enums, s3);
    proof {
        lemma_blocks_text_add(d, g, false);
        lemma_blocks_text_add(d + g, m, false);
        lemma_blocks_text_add(d + g + m, e, false);
        assert(out@ =~= document_text(d + g + m + e));
    }
    out
}

} // verus!

verus! {

/// The url that overrides the one of datasource `name`: the first pair
/// with that name, if any.
pub open spec fn override_for(name: Seq<char>, overrides: Seq<(String, String)>) -> Option<
    Seq<char>,
>
    decreases overrides.len(),
{
    if overrides.len() == 0 {
        None
    } else if overrides[0].0@ == name {
        Some(overrides[0].1@)
    } else {
        override_for(name, overrides.drop_first())
    }
}

/// The member line `url = "<url>"`.
pub open spec fn url_member(url: Seq<char>) -> MemberView {
    seq!["url"@, "="@, "\""@ + url + "\""@]
}

pub open spec fn is_url_member(m: MemberView) -> bool {
    m.len() > 0 && m[0] == "url"@
}

/// Member lines with the url lines replaced by `url`.
pub open spec fn url_replaced(ms: Seq<MemberView>, url: Seq<char>) -> Seq<MemberView> {
    ms.map_values(|m: MemberView| if is_url_member(m) { url_member(url) } else { m })
}

/// A datasource block with its url lines replaced by `url`.
pub open spec fn with_url(b: BlockView, url: Seq<char>) -> BlockView {
    (b.0, b.1, url_replaced(b.2, url))
}

pub open spec fn all_overridden(bs: Seq<BlockView>, overrides: Seq<(String, String)>) -> Seq<
    BlockView,
> {
    bs.map_values(|b: BlockView| overridden(b, overrides))
}

pub open spec fn overridden(b: BlockView, overrides: Seq<(String, String)>) -> BlockView {
    match override_for(b.1, overrides) {
        Some(u) => with_url(b, u),
        None => b,
    }
}

fn find_override(name: &String, overrides: &Vec<(String, String)>) -> (r: Option<String>)
    ensures
        match override_for(name@, overrides@) {
            Some(u) => r matches Some(s) && s@ == u,
            None => r is None,
        },
{
    let mut i: usize = 0;
    proof {
        assert(overrides@.skip(0) =~= overrides@);
    }
    while i < overrides.len()
        invariant
            i <= overrides@.len(),
            override_for(name@, overrides@) == override_for(name@, overrides@.skip(i as int)),
        decreases overrides@.len() - i,
    {
        proof {
            assert(overrides@.skip(i as int).drop_first() =~= overrides@.skip(i + 1));
            assert(overrides@.skip(i as int)[0] == overrides@[i as int]);
        }
        if overrides[i].0 == *name {
            return Some(overrides[i].1.clone());
        }
        i += 1;
    }
    proof {
        assert(overrides@.skip(i as int).len() == 0);
    }
    None
}

fn url_line(url: &String) -> (r: Member)
    ensures
        member_view(r) == url_member(url@),
{
    let mut words: Vec<String> = Vec::new();
    words.push(String::from_str("url"));
    words.push(String::from_str("="));
    let quoted = String::from_str("\"").concat(url.as_str()).concat("\"");
    words.push(quoted);
    proof {
        assert(crate::filter::names(words@) =~= url_member(url@));
    }
    Member { words }
}

fn replace_url(b: Block, url: &String) -> (r: Block)
    ensures
        block_view(r) == with_url(block_view(b), url@),
{
    let ghost all = b.members@;
    let ghost mv = block_view(b).2;
    let Block { keyword, name, members } = b;
    let mut rest = members;
    let mut out: Vec<Member> = Vec::new();
    proof {
        assert(members_view(out@) =~= seq![]);
    }
    while rest.len() > 0
        invariant
            rest@.len() <= all.len(),
            rest@ == all.skip(all.len() - rest@.len()),
            mv == members_view(all),
            members_view(out@) == url_replaced(mv.take(all.len() - rest@.len()), url@),
        decreases rest@.len(),
    {
        let ghost done = all.len() - rest@.len();
        let m = rest.remove(0);
        proof {
            assert(m == all[done]);
            assert(rest@ =~= all.skip(done + 1));
        }
        let is_url = m.words.len() > 0 && m.words[0] == String::from_str("url");
        proof {
            assert(member_view(m).len() == m.words@.len());
            if m.words@.len() > 0 {
                assert(member_view(m)[0] == m.words@[0]@);
            }
            assert(is_url == is_url_member(member_view(m)));
        }
        let ghost o = out@;
        let next = if is_url {
            url_line(url)
        } else {
            m
        };
        proof {
            assert(member_view(m) == mv[done]);
            if is_url {
                assert(member_view(next) == url_member(url@));
            } else {
                assert(next == m);
            }
            assert(member_view(next) == url_replaced(mv.take(done + 1), url@)[done]);
        }
        out.push(next);
        proof {
            assert(members_view(out@) =~= members_view(o).push(
                member_view(next),
            ));
            assert(url_replaced(mv.take(done + 1), url@) =~= url_replaced(mv.take(done), url@).push(
                member_view(next),
            ));
        }
    }
    proof {
        assert(mv.take(all.len() as int) =~= mv);
    }
    let r = Block { keyword, name, members: out };
    proof {
        assert(block_view(r).2 =~= with_url(block_view(b), url@).2);
    }
    r
}

/// As `parse_configuration`; then each datasource named in
/// `datasource_url_overrides` (pairs of datasource name and url, the first
/// pair of a name applying) has its `url` lines replaced by
/// `url = "<url>"`.
pub fn parse_configuration_with_url_overrides(
    schema: &str,
    datasource_url_overrides: Vec<(String, String)>,
) -> (r: Result<Configuration, SchemaError>)
    ensures
        match configuration_result_of(schema@) {
            Err(e) => r == Err::<Configuration, SchemaError>(e),
            Ok(bs) => r matches Ok(c) && blocks_view(c.datasources@) == all_overridden(
                blocks_of(bs, "datasource"@),
                datasource_url_overrides@,
            )
                && blocks_view(c.generators@) == blocks_of(bs, "generator"@),
        },
{
    let config = parse_configuration_internal(schema, false)?;
    let Configuration { datasources, generators } = config;
    let ghost all = datasources@;
    let ghost dv = blocks_view(all);
    let mut rest = datasources;
    let mut out: Vec<Block> = Vec::new();
    proof {
        assert(blocks_view(out@) =~= seq![]);
    }
    while rest.len() > 0
        invariant
            rest@.len() <= all.len(),
            rest@ == all.skip(all.len() - rest@.len()),
            dv == blocks_view(all),
            blocks_view(out@) == all_overridden(dv.take(all.len() - rest@.len()), datasource_url_overrides@),
        decreases rest@.len(),
    {
        let ghost done = all.len() - rest@.len();
        let b = rest.remove(0);
        proof {
            assert(b == all[done]);
            assert(rest@ =~= all.skip(done + 1));
            assert(block_view(b) == dv[done]);
        }
        let ghost o = out@;
        let next = match find_override(&b.name, &datasource_url_overrides) {
            Some(url) => replace_url(b, &url),
            None => b,
        };
        proof {
            assert(dv[done].1 == b.name@);
            assert(block_view(next) == overridden(dv[done], datasource_url_overrides@));
        }
        out.push(next);
        proof {
            assert(blocks_view(out@) =~= blocks_view(o).push(block_view(next)));
            assert(all_overridden(dv.take(done + 1), datasource_url_overrides@) =~= all_overridden(
                dv.take(done),
                datasource_url_overrides@,
            ).push(block_view(next)));
        }
    }
    proof {
        assert(dv.take(all.len() as int) =~= dv);
    }
    Ok(Configuration { datasources: out, generators })
}

/// What `parse_configuration` reads from a text: its blocks, or the error.
pub open spec fn configuration_result_of(t: Seq<char>) -> Result<Seq<BlockView>, SchemaError> {
    match parse_spec(t) {
        Err(e) => Err(e),
        Ok(bs) => if !urls_present(bs) {
            Err(SchemaError::MissingDatasourceUrl)
        } else {
            Ok(bs)
        },
    }
}

} // verus!
