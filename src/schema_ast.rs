use vstd::prelude::*;

use crate::filter::names;

verus! {

/// Why a schema text could not be read or validated.
#[derive(Clone, Copy, Debug, PartialEq, Eq, Structural)]
pub enum SchemaError {
    /// A `{` inside a block.
    NestedBlock,
    /// A `}` outside any block.
    UnmatchedClose,
    /// A block header that is not exactly a keyword and a name.
    MalformedHeader,
    /// The text ends inside a block or after an unfinished header.
    UnclosedBlock,
    /// A block keyword other than model, enum, datasource or generator.
    UnknownBlockType,
    /// Two models or enums with the same name.
    DuplicateName,
    /// A datasource without a `url` member.
    MissingDatasourceUrl,
}

/// One line of a block: its whitespace-separated words.
#[derive(Debug, PartialEq, Eq)]
pub struct Member {
    pub words: Vec<String>,
}

/// A top-level block `keyword name { members }`.
#[derive(Debug, PartialEq, Eq)]
pub struct Block {
    pub keyword: String,
    pub name: String,
    pub members: Vec<Member>,
}

/// The syntax tree of a schema: its blocks in text order.
#[derive(Debug, PartialEq, Eq)]
pub struct SchemaAst {
    pub blocks: Vec<Block>,
}

pub type MemberView = Seq<Seq<char>>;

pub type BlockView = (Seq<char>, Seq<char>, Seq<MemberView>);

pub open spec fn member_view(m: Member) -> MemberView {
    names(m.words@)
}

pub open spec fn members_view(v: Seq<Member>) -> Seq<MemberView> {
    v.map_values(|m: Member| member_view(m))
}

pub open spec fn block_view(b: Block) -> BlockView {
    (b.keyword@, b.name@, members_view(b.members@))
}

pub open spec fn blocks_view(v: Seq<Block>) -> Seq<BlockView> {
    v.map_values(|b: Block| block_view(b))
}

/// Where the reading of a schema text stands after a prefix of it.
pub struct ScanState {
    pub blocks: Seq<BlockView>,
    pub header: Seq<Seq<char>>,
    pub in_block: bool,
    pub line: Seq<Seq<char>>,
    pub members: Seq<MemberView>,
    pub word: Seq<char>,
    pub err: Option<SchemaError>,
}

/// Inside a block the header holds its keyword and name; outside, no
/// member is pending.
pub open spec fn scan_wf(st: ScanState) -> bool {
    &&& st.in_block ==> st.header.len() == 2
    &&& !st.in_block ==> st.line.len() == 0 && st.members.len() == 0
}

pub open spec fn is_blank(c: char) -> bool {
    c == ' ' || c == '\t' || c == '\r'
}

pub open spec fn initial_scan() -> ScanState {
    ScanState {
        blocks: seq![],
        header: seq![],
        in_block: false,
        line: seq![],
        members: seq![],
        word: seq![],
        err: None,
    }
}

/// Ends the current word: it joins the member line inside a block and the
/// header outside.
pub open spec fn end_word(st: ScanState) -> ScanState {
    if st.word.len() == 0 {
        st
    } else if st.in_block {
        ScanState { line: st.line.push(st.word), word: seq![], ..st }
    } else {
        ScanState { header: st.header.push(st.word), word: seq![], ..st }
    }
}

/// Ends the current member line; empty lines are dropped.
pub open spec fn end_line(st: ScanState) -> ScanState {
    if st.in_block && st.line.len() > 0 {
        ScanState { members: st.members.push(st.line), line: seq![], ..st }
    } else {
        st
    }
}

/// Reads one character. Words are runs of characters other than blanks,
/// newlines and braces; a header of exactly two words and a `{` open a
/// block; a newline ends a member line; `}` closes the block. The first
/// error is kept and stops the reading.
pub open spec fn scan_step(st: ScanState, c: char) -> ScanState {
    if st.err is Some {
        st
    } else if is_blank(c) {
        end_word(st)
    } else if c == '\n' {
        end_line(end_word(st))
    } else if c == '{' {
        let s = end_word(st);
        if s.in_block {
            ScanState { err: Some(SchemaError::NestedBlock), ..s }
        } else if s.header.len() != 2 {
            ScanState { err: Some(SchemaError::MalformedHeader), ..s }
        } else {
            ScanState { in_block: true, ..s }
        }
    } else if c == '}' {
        let s = end_line(end_word(st));
        if !s.in_block {
            ScanState { err: Some(SchemaError::UnmatchedClose), ..s }
        } else {
            ScanState {
                blocks: s.blocks.push((s.header[0], s.header[1], s.members)),
                header: seq![],
                in_block: false,
                members: seq![],
                ..s
            }
        }
    } else {
        ScanState { word: st.word.push(c), ..st }
    }
}

pub open spec fn scan(t: Seq<char>) -> ScanState
    decreases t.len(),
{
    if t.len() == 0 {
        initial_scan()
    } else {
        scan_step(scan(t.drop_last()), t.last())
    }
}

/// The result of reading a whole schema text: its blocks, or the first
/// error, where ending inside a block or after header words is an error.
pub open spec fn parse_spec(t: Seq<char>) -> Result<Seq<BlockView>, SchemaError> {
    let st = end_word(scan(t));
    match st.err {
        Some(e) => Err(e),
        None => if st.in_block || st.header.len() > 0 {
            Err(SchemaError::UnclosedBlock)
        } else {
            Ok(st.blocks)
        },
    }
}

struct Scanner {
    blocks: Vec<Block>,
    header: Vec<String>,
    in_block: bool,
    line: Vec<String>,
    members: Vec<Member>,
    /// The text being read; the current word is `text[word_start..word_end]`.
    text: Ghost<Seq<char>>,
    word_start: usize,
    word_end: usize,
    err: Option<SchemaError>,
}

impl Scanner {
    spec fn view(&self) -> ScanState {
        ScanState {
            blocks: blocks_view(self.blocks@),
            header: names(self.header@),
            in_block: self.in_block,
            line: names(self.line@),
            members: members_view(self.members@),
            word: self.text@.subrange(self.word_start as int, self.word_end as int),
            err: self.err,
        }
    }

    spec fn positions_wf(&self) -> bool {
        self.word_start <= self.word_end <= self.text@.len()
    }

    fn end_word(&mut self, text: &str)
        requires
            text@ == old(self).text@,
            old(self).positions_wf(),
        ensures
            final(self).view() == end_word(old(self).view()),
            final(self).text@ == old(self).text@,
            final(self).word_start == old(self).word_end,
            final(self).word_end == old(self).word_end,
    {
        if self.word_start < self.word_end {
            let w = String::from_str(text.substring_char(self.word_start, self.word_end));
            let ghost h = self.header@;
            let ghost l = self.line@;
            if self.in_block {
                self.line.push(w);
                proof {
                    assert(names(self.line@) =~= names(l).push(w@));
                }
            } else {
                self.header.push(w);
                proof {
                    assert(names(self.header@) =~= names(h).push(w@));
                }
            }
            self.word_start = self.word_end;
            proof {
                assert(w@ == old(self).view().word);
                assert(self.view().word =~= seq![]);
                assert(self.view() =~= end_word(old(self).view()));
            }
        }
    }

    fn end_line(&mut self)
        ensures
            final(self).view() == end_line(old(self).view()),
            final(self).text == old(self).text,
            final(self).word_start == old(self).word_start,
            final(self).word_end == old(self).word_end,
    {
        if self.in_block && self.line.len() > 0 {
            let ghost m = self.members@;
            let words = self.line.split_off(0);
            let ghost wv = words@;
            proof {
                assert(wv =~= old(self).line@);
            }
            self.members.push(Member { words });
            proof {
                assert(members_view(self.members@) =~= members_view(m).push(names(wv)));
                assert(names(self.line@) =~= seq![]);
                assert(self.view() =~= end_line(old(self).view()));
            }
        } else {
            proof {
                if self.in_block {
                    assert(names(self.line@).len() == 0);
                }
            }
        }
    }

    fn step(&mut self, c: char, text: &str, i: usize)
        requires
            scan_wf(old(self).view()),
            old(self).positions_wf(),
            text@ == old(self).text@,
            i < text@.len(),
            i < usize::MAX,
            text@[i as int] == c,
            old(self).err is None ==> old(self).word_end == i,
        ensures
            scan_wf(final(self).view()),
            final(self).view() == scan_step(old(self).view(), c),
            final(self).positions_wf(),
            final(self).text == old(self).text,
            final(self).err is None ==> final(self).word_end == i + 1,
    {
        if self.err.is_some() {
            return;
        }
        let ghost w0 = self.view().word;
        if c == ' ' || c == '\t' || c == '\r' {
            self.end_word(text);
        } else if c == '\n' {
            self.end_word(text);
            self.end_line();
        } else if c == '{' {
            self.end_word(text);
            if self.in_block {
                self.err = Some(SchemaError::NestedBlock);
            } else if self.header.len() != 2 {
                self.err = Some(SchemaError::MalformedHeader);
            } else {
                self.in_block = true;
            }
        } else if c == '}' {
            self.end_word(text);
            self.end_line();
            if !self.in_block {
                self.err = Some(SchemaError::UnmatchedClose);
            } else {
                let ghost before = self.view();
                let ghost before_header = self.header@;
                let ghost before_members = self.members@;
                let mut header = self.header.split_off(0);
                let members = self.members.split_off(0);
                let ghost hv = header@;
                proof {
                    assert(names(before_header).len() == 2);
                    assert(hv =~= before_header);
                    assert(members@ =~= before_members);
                }
                let name = header.pop().unwrap();
                let keyword = header.pop().unwrap();
                proof {
                    assert(keyword == hv[0] && name == hv[1]);
                    assert(names(hv)[0] == keyword@ && names(hv)[1] == name@);
                }
                let ghost b = self.blocks@;
                self.blocks.push(Block { keyword, name, members });
                self.in_block = false;
                proof {
                    assert(blocks_view(self.blocks@) =~= blocks_view(b).push(
                        (before.header[0], before.header[1], before.members),
                    ));
                    assert(names(self.header@) =~= seq![]);
                    assert(members_view(self.members@) =~= seq![]);
                    assert(self.view() =~= scan_step(old(self).view(), c));
                }
            }
        } else {
            self.word_end = i + 1;
            proof {
                assert(self.view().word =~= w0.push(c));
                assert(self.view() =~= scan_step(old(self).view(), c));
            }
            return;
        }
        let ghost before = self.view();
        self.word_start = i + 1;
        self.word_end = i + 1;
        proof {
            assert(before.word =~= seq![]);
            assert(self.view().word =~= seq![]);
            assert(self.view() =~= before);
        }
    }
}

/// Reads a schema text in a simplified block syntax: top-level blocks
/// `keyword name { ... }` with no nested braces, each non-empty line of a
/// block read as a member made of its whitespace-separated words. Field
/// types, attributes and values are not interpreted.
pub fn parse_schema_ast(datamodel_string: &str) -> (r: Result<SchemaAst, SchemaError>)
    ensures
        match parse_spec(datamodel_string@) {
            Ok(bs) => r matches Ok(ast) && blocks_view(ast.blocks@) == bs,
            Err(e) => r == Err::<SchemaAst, SchemaError>(e),
        },
{
    let mut sc = Scanner {
        blocks: Vec::new(),
        header: Vec::new(),
        in_block: false,
        line: Vec::new(),
        members: Vec::new(),
        text: Ghost(datamodel_string@),
        word_start: 0,
        word_end: 0,
        err: None,
    };
    proof {
        assert(names(sc.header@) =~= seq![]);
        assert(names(sc.line@) =~= seq![]);
        assert(blocks_view(sc.blocks@) =~= seq![]);
        assert(members_view(sc.members@) =~= seq![]);
        assert(sc.view().word =~= seq![]);
        assert(sc.view() =~= initial_scan());
    }
    let n = datamodel_string.unicode_len();
    let ghost t = datamodel_string@;
    let mut i: usize = 0;
    while i < n
        invariant
            n == t.len(),
            t == datamodel_string@,
            i <= n,
            sc.view() == scan(t.take(i as int)),
            scan_wf(sc.view()),
            sc.text@ == t,
            sc.positions_wf(),
            sc.err is None ==> sc.word_end == i,
        decreases n - i,
    {
        let c = datamodel_string.get_char(i);
        proof {
            assert(t.take(i + 1).drop_last() =~= t.take(i as int));
        }
        sc.step(c, datamodel_string, i);
        i += 1;
    }
    proof {
        assert(t.take(n as int) =~= t);
    }
    sc.end_word(datamodel_string);
    if let Some(e) = sc.err {
        return Err(e);
    }
    if sc.in_block || sc.header.len() > 0 {
        return Err(SchemaError::UnclosedBlock);
    }
    Ok(SchemaAst { blocks: sc.blocks })
}

} // verus!
