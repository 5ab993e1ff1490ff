//! The nested trace builder: a tree of mnemonic lines that mirrors the
//! nesting of the program, rendered depth-first with indentation
//! proportional to depth.  Purely diagnostic; it never influences the
//! emitted code.

use vstd::prelude::*;
use vstd::string::*;

verus! {

/// One entry of a trace block: a line of text or a nested block.
pub enum DebugCodeEntry {
    Code(String),
    Block(DebugCodeBlock),
}

/// A trace block: an optional heading, its entries, and its depth.
pub struct DebugCodeBlock {
    pub name: Option<String>,
    pub code: Vec<DebugCodeEntry>,
    pub level: i8,
}

/// `n` spaces, and none for a negative count.
pub open spec fn spec_indent(n: int) -> Seq<char> {
    Seq::new(
        (if n < 0 {
            0
        } else {
            n
        }) as nat,
        |i: int| ' ',
    )
}

/// The rendering of one entry: a line is indented one step deeper than
/// its block's heading and ends `;` and newline; a nested block renders
/// by its own rule.
pub open spec fn spec_render_entry(e: DebugCodeEntry, level: int) -> Seq<char>
    decreases e,
{
    match e {
        DebugCodeEntry::Code(text) => spec_indent(2 * (level + 1)) + text@ + ";\n"@,
        DebugCodeEntry::Block(block) => spec_render_block(block),
    }
}

pub open spec fn spec_render_entries(es: Seq<DebugCodeEntry>, i: int, level: int) -> Seq<char>
    decreases es, es.len() - i,
{
    if i < 0 || i >= es.len() {
        Seq::empty()
    } else {
        spec_render_entry(es[i], level) + spec_render_entries(es, i + 1, level)
    }
}

/// The rendering of a block: heading, entries, closing brace; a nameless
/// block renders its entries alone.
pub open spec fn spec_render_block(b: DebugCodeBlock) -> Seq<char>
    decreases b,
{
    (match b.name {
        Some(name) => spec_indent(2 * b.level) + name@ + " {\n"@,
        None => Seq::<char>::empty(),
    }) + spec_render_entries(b.code@, 0, b.level as int) + (match b.name {
        Some(_) => spec_indent(2 * b.level) + "}\n"@,
        None => Seq::<char>::empty(),
    })
}

/// Rendering one more entry extends the rendering of the ones before it.
proof fn lemma_render_take_step(es: Seq<DebugCodeEntry>, i: int, j: int, level: int)
    requires
        0 <= j <= i < es.len(),
    ensures
        spec_render_entries(es.take(i + 1), j, level) == spec_render_entries(es.take(i), j, level)
            + spec_render_entry(es[i], level),
    decreases i - j,
{
    let a = es.take(i + 1);
    let b = es.take(i);
    if j == i {
        assert(a[j] == es[i]);
        assert(spec_render_entries(a, j + 1, level) == Seq::<char>::empty());
        assert(spec_render_entries(b, j, level) == Seq::<char>::empty());
        assert(spec_render_entries(a, j, level) =~= spec_render_entries(b, j, level)
            + spec_render_entry(es[i], level));
    } else {
        lemma_render_take_step(es, i, j + 1, level);
        assert(a[j] == es[j]);
        assert(b[j] == es[j]);
        assert(spec_render_entries(a, j, level) == spec_render_entry(es[j], level)
            + spec_render_entries(a, j + 1, level));
        assert(spec_render_entries(b, j, level) == spec_render_entry(es[j], level)
            + spec_render_entries(b, j + 1, level));
        assert(spec_render_entry(es[j], level) + (spec_render_entries(b, j + 1, level)
            + spec_render_entry(es[i], level)) =~= (spec_render_entry(es[j], level)
            + spec_render_entries(b, j + 1, level)) + spec_render_entry(es[i], level));
    }
}

/// Appends `k` spaces.
#[verifier::loop_isolation(false)]
fn push_spaces(s: &mut String, k: usize)
    ensures
        final(s)@ == old(s)@ + spec_indent(k as int),
{
    proof {
        reveal_strlit(" ");
    }
    let mut i: usize = 0;
    while i < k
        invariant
            0 <= i <= k,
            s@ == old(s)@ + spec_indent(i as int),
        decreases k - i,
    {
        s.append(" ");
        proof {
            assert(s@ =~= old(s)@ + spec_indent(i + 1 as int));
        }
        i = i + 1;
    }
    assert(s@ =~= old(s)@ + spec_indent(k as int));
}

impl DebugCodeBlock {
    pub fn new(name: Option<String>, level: i8) -> (r: DebugCodeBlock)
        ensures
            r.name == name,
            r.code@ == Seq::<DebugCodeEntry>::empty(),
            r.level == level,
    {
        DebugCodeBlock { name, code: Vec::new(), level }
    }

    /// Adds one line of text to the block.
    pub fn push(&mut self, code: String)
        ensures
            final(self).code@ == old(self).code@.push(DebugCodeEntry::Code(code)),
            final(self).name == old(self).name,
            final(self).level == old(self).level,
    {
        self.code.push(DebugCodeEntry::Code(code));
    }

    /// Nests another block inside this one.
    pub fn append(&mut self, block: DebugCodeBlock)
        ensures
            final(self).code@ == old(self).code@.push(DebugCodeEntry::Block(block)),
            final(self).name == old(self).name,
            final(self).level == old(self).level,
    {
        self.code.push(DebugCodeEntry::Block(block));
    }

    /// Renders the block depth-first: each line indented one step deeper
    /// than the block's heading.
    #[verifier::loop_isolation(false)]
    pub fn render(&self) -> (r: String)
        ensures
            r@ == spec_render_block(*self),
        decreases *self,
    {
        proof {
            reveal_strlit(" {\n");
            reveal_strlit("}\n");
            reveal_strlit(";\n");
        }
        let mut result = String::new();
        let indent: usize = if self.level >= 0 {
            (self.level as usize) * 2
        } else {
            0
        };
        match &self.name {
            Some(name) => {
                push_spaces(&mut result, indent);
                result.append(name.as_str());
                result.append(" {\n");
            },
            None => {},
        }
        let ghost header = result@;
        let n = self.code.len();
        let mut i: usize = 0;
        let entry_indent: usize = {
            let deeper: i32 = self.level as i32 + 1;
            if deeper >= 0 {
                (deeper as usize) * 2
            } else {
                0
            }
        };
        proof {
            assert(spec_render_entries(self.code@.take(0), 0, self.level as int)
                == Seq::<char>::empty());
            assert(result@ =~= header + spec_render_entries(
                self.code@.take(0),
                0,
                self.level as int,
            ));
        }
        while i < n
            invariant
                0 <= i <= n,
                n == self.code@.len(),
                result@ == header + spec_render_entries(
                    self.code@.take(i as int),
                    0,
                    self.level as int,
                ),
            decreases n - i,
        {
            match &self.code[i] {
                DebugCodeEntry::Code(text) => {
                    push_spaces(&mut result, entry_indent);
                    result.append(text.as_str());
                    result.append(";\n");
                },
                DebugCodeEntry::Block(block) => {
                    let nested = block.render();
                    result.append(nested.as_str());
                },
            }
            proof {
                lemma_render_take_step(self.code@, i as int, 0, self.level as int);
                assert(result@ =~= header + spec_render_entries(
                    self.code@.take(i + 1 as int),
                    0,
                    self.level as int,
                ));
            }
            i = i + 1;
        }
        proof {
            assert(self.code@.take(n as int) =~= self.code@);
        }
        match &self.name {
            Some(_) => {
                push_spaces(&mut result, indent);
                result.append("}\n");
            },
            None => {},
        }
        result
    }
}

} // verus!
