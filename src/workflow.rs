use vstd::prelude::*;
use crate::lines::{
    join_lines,
    lemma_join_lines_of,
    lemma_lines_of_concat,
    lemma_lines_of_single,
    lines_of,
    split_lines,
};

verus! {

/// The names written by `initialize`, one per line, without a final newline.
pub const NAMES_TEXT: &'static str = "Moses\nChristopher\nCarrotPi";

/// The text appended after `initialize` in the standard run.
pub const APPENDED_TEXT: &'static str = "\nSteve";

/// The file that the standard run writes, appends to and reads.
pub const DEFAULT_PATH: &'static str = "text-data/names.txt";

/// The label put before each line when the lines are shown.
pub const LINE_LABEL: &'static str = "line-by-line: ";

/// What a file holds after `initialize`, whatever it held before.
pub open spec fn initialized_content(prior: Seq<char>) -> Seq<char> {
    NAMES_TEXT@
}

/// What a file holds after `text` is appended to `prior`.
pub open spec fn appended_content(prior: Seq<char>, text: Seq<char>) -> Seq<char> {
    prior + text
}

/// The content of a text file, held in memory.
pub struct TextFile {
    content: String,
}

impl View for TextFile {
    type V = Seq<char>;

    closed spec fn view(&self) -> Seq<char> {
        self.content@
    }
}

impl TextFile {
    /// A file holding `content`.
    pub fn from_content(content: String) -> (f: TextFile)
        ensures
            f@ == content@,
    {
        TextFile { content }
    }

    /// The whole content of the file.
    pub fn content(&self) -> (r: &str)
        ensures
            r@ == self@,
    {
        self.content.as_str()
    }

    /// Replaces the content with the names, discarding what was there.
    pub fn initialize(&mut self)
        ensures
            final(self)@ == initialized_content(old(self)@),
    {
        self.content = String::from_str(NAMES_TEXT);
    }

    /// Adds `text` at the end, keeping the existing content as it is.
    pub fn append(&mut self, text: &str)
        ensures
            final(self)@ == appended_content(old(self)@, text@),
    {
        self.content.append(text);
    }

    /// The lines of the content, in order, without the newlines.
    pub fn read_all(&self) -> (r: Vec<String>)
        ensures
            r.deep_view() == lines_of(self@),
    {
        split_lines(self.content.as_str())
    }
}

/// `line` with the label put before it.
pub open spec fn labelled(line: Seq<char>) -> Seq<char> {
    LINE_LABEL@ + line
}

/// Each of `lines`, in order, with the label put before it.
pub fn labelled_lines(lines: &Vec<String>) -> (r: Vec<String>)
    ensures
        r.len() == lines.len(),
        forall|i: int|
            0 <= i < lines.len() ==> #[trigger] r.deep_view()[i] == labelled(
                lines.deep_view()[i],
            ),
{
    let mut out: Vec<String> = Vec::new();
    for k in 0..lines.len()
        invariant
            out.len() == k,
            forall|i: int|
                0 <= i < k ==> #[trigger] out.deep_view()[i] == labelled(lines.deep_view()[i]),
    {
        let shown = String::from_str(LINE_LABEL).concat(lines[k].as_str());
        let ghost prev = out.deep_view();
        out.push(shown);
        assert(out.deep_view() =~= prev.push(labelled(lines.deep_view()[k as int])));
    }
    out
}

/// A search asked for on the command line: the file to read and the text to
/// look for in its lines.
pub struct SearchRequest {
    pub path: String,
    pub needle: String,
}

/// Decides from the arguments given by the user (the program name left out)
/// whether a search is asked for: with fewer than two arguments there is
/// none, otherwise the first is the path and the second the needle, and any
/// further ones are ignored.
pub fn search_request(args: &Vec<String>) -> (r: Option<SearchRequest>)
    ensures
        r is None <==> args.len() < 2,
        r matches Some(q) ==> q.path@ == args[0]@ && q.needle@ == args[1]@,
{
    if args.len() < 2 {
        return None;
    }
    Some(SearchRequest { path: args[0].clone(), needle: args[1].clone() })
}

/// Initializing a second time leaves the same content as initializing once:
/// the content is replaced, never added to.
pub proof fn lemma_initialize_twice(prior: Seq<char>)
    ensures
        initialized_content(initialized_content(prior)) == initialized_content(prior),
{
}

/// After initializing and appending the standard text, the lines read back
/// are the three names followed by the appended name, in that order.
pub proof fn lemma_append_after_initialize(prior: Seq<char>)
    ensures
        lines_of(appended_content(initialized_content(prior), APPENDED_TEXT@)) == seq![
            "Moses"@,
            "Christopher"@,
            "CarrotPi"@,
            "Steve"@,
        ],
{
    reveal_strlit("Moses\nChristopher\nCarrotPi");
    reveal_strlit("\nSteve");
    reveal_strlit("Moses");
    reveal_strlit("Christopher");
    reveal_strlit("CarrotPi");
    reveal_strlit("Steve");
    let nl = seq!['\n'];
    let tail2 = "CarrotPi"@ + nl + "Steve"@;
    let tail1 = "Christopher"@ + nl + tail2;
    let all = "Moses"@ + nl + tail1;
    assert(appended_content(initialized_content(prior), APPENDED_TEXT@) =~= all);
    lemma_lines_of_single("Moses"@);
    lemma_lines_of_single("Christopher"@);
    lemma_lines_of_single("CarrotPi"@);
    lemma_lines_of_single("Steve"@);
    lemma_lines_of_concat("CarrotPi"@, "Steve"@);
    lemma_lines_of_concat("Christopher"@, tail2);
    lemma_lines_of_concat("Moses"@, tail1);
    assert(lines_of(all) =~= seq!["Moses"@, "Christopher"@, "CarrotPi"@, "Steve"@]);
}

/// The lines read back from what `initialize` wrote, joined with newlines,
/// are exactly what it wrote.
pub proof fn lemma_initialize_round_trip(prior: Seq<char>)
    ensures
        join_lines(lines_of(initialized_content(prior))) == initialized_content(prior),
{
    lemma_join_lines_of(initialized_content(prior));
}

} // verus!
