//! Command lines for a POSIX shell.

use vstd::prelude::*;
use vstd::string::*;

verus! {

/// Whether a character has no special meaning to a shell.
pub open spec fn is_plain(c: char) -> bool {
    ||| 'a' <= c <= 'z'
    ||| 'A' <= c <= 'Z'
    ||| '0' <= c <= '9'
    ||| c == '-' || c == '_' || c == '=' || c == '/' || c == ',' || c == '.' || c == '+'
}

/// What stands for a character between single quotes. A single quote and an exclamation mark
/// cannot stand there: the quotes are closed, the character is escaped with a backslash, and the
/// quotes are opened again.
pub open spec fn quoted_char(c: char) -> Seq<char> {
    if c == '\'' || c == '!' {
        seq!['\'', '\\', c, '\'']
    } else {
        seq![c]
    }
}

/// What stands for these characters between single quotes.
pub open spec fn quoted_chars(word: Seq<char>) -> Seq<char>
    decreases word.len(),
{
    if word.len() == 0 {
        Seq::empty()
    } else {
        quoted_chars(word.drop_last()) + quoted_char(word.last())
    }
}

/// A word as it stands in a command line: itself where it consists of plain characters, and
/// otherwise in single quotes.
pub open spec fn escaped(word: Seq<char>) -> Seq<char> {
    if word.len() > 0 && forall|i: int| 0 <= i < word.len() ==> is_plain(#[trigger] word[i]) {
        word
    } else {
        seq!['\''] + quoted_chars(word) + seq!['\'']
    }
}

/// The words of a command in one line, with a space between each two of them.
pub open spec fn command_line(words: Seq<Seq<char>>) -> Seq<char>
    decreases words.len(),
{
    if words.len() == 0 {
        Seq::empty()
    } else if words.len() == 1 {
        escaped(words[0])
    } else {
        command_line(words.drop_last()) + seq![' '] + escaped(words.last())
    }
}

/// The words that a list of strings spells.
pub open spec fn words_of(strings: Seq<String>) -> Seq<Seq<char>> {
    strings.map_values(|string: String| string@)
}

/// `shell_escape::unix::escape`: a word that is not empty and consists of ASCII letters, digits
/// and the characters `-_=/,.+` is returned as it is. Any other is put in single quotes, and each
/// single quote and each exclamation mark in it becomes a closing quote, a backslash, the
/// character, and an opening quote.
#[verifier::external_body]
fn escape(word: &str) -> (line: String)
    ensures
        line@ == escaped(word@),
{
    shell_escape::unix::escape(word.into()).into_owned()
}

/// Assemble a command into a single line for a shell.
pub fn assemble(command: &[String]) -> (line: String)
    requires
        command@.len() > 0,
    ensures
        line@ == command_line(words_of(command@)),
{
    let len: usize = command.len();
    let ghost words = words_of(command@);
    let mut line = escape(command[0].as_str());
    let mut i: usize = 1;
    assert(words.take(1).len() == 1);
    proof {
        reveal_strlit(" ");
    }
    assert(" "@ =~= seq![' ']);
    while i < len
        invariant
            len == command@.len(),
            1 <= i <= len,
            words == words_of(command@),
            " "@ == seq![' '],
            line@ == command_line(words.take(i as int)),
        decreases len - i,
    {
        line.append(" ");
        let word = escape(command[i].as_str());
        line.append(word.as_str());
        i = i + 1;
        assert(words.take(i as int).drop_last() =~= words.take(i - 1));
        assert(words.take(i as int).last() == command@[i - 1]@);
    }
    assert(words.take(len as int) =~= words);
    line
}

/// How a shell reads the next character.
pub enum Mode {
    /// Outside quotes.
    Plain,
    /// Between single quotes, where every character stands for itself.
    Quoted,
    /// Behind a backslash outside quotes.
    Escaped,
    /// The line holds something that a shell gives a meaning of its own.
    Special,
}

/// What a shell has read of a line.
pub struct Scan {
    /// The words that are complete.
    pub words: Seq<Seq<char>>,
    /// The word that is being read, unless the shell is between words.
    pub word: Option<Seq<char>>,
    /// How the next character is read.
    pub mode: Mode,
}

impl Scan {
    /// What is there of the word that is being read.
    pub open spec fn so_far(self) -> Seq<char> {
        match self.word {
            Some(word) => word,
            None => Seq::empty(),
        }
    }

    /// The words once the word that is being read is complete.
    pub open spec fn complete(self) -> Seq<Seq<char>> {
        match self.word {
            Some(word) => self.words.push(word),
            None => self.words,
        }
    }

    /// Read one more character, by the rules of the POSIX shell for spaces, single quotes and
    /// backslashes. An unquoted character that is not plain is special.
    pub open spec fn read(self, c: char) -> Scan {
        match self.mode {
            Mode::Plain => if c == ' ' {
                Scan { words: self.complete(), word: None, mode: Mode::Plain }
            } else if c == '\'' {
                Scan { word: Some(self.so_far()), mode: Mode::Quoted, ..self }
            } else if c == '\\' {
                Scan { word: Some(self.so_far()), mode: Mode::Escaped, ..self }
            } else if is_plain(c) {
                Scan { word: Some(self.so_far().push(c)), ..self }
            } else {
                Scan { mode: Mode::Special, ..self }
            },
            Mode::Quoted => if c == '\'' {
                Scan { mode: Mode::Plain, ..self }
            } else {
                Scan { word: Some(self.so_far().push(c)), ..self }
            },
            Mode::Escaped => if c == '\n' {
                Scan { mode: Mode::Special, ..self }
            } else {
                Scan { word: Some(self.so_far().push(c)), mode: Mode::Plain, ..self }
            },
            Mode::Special => self,
        }
    }

    /// Read these characters.
    pub open spec fn read_all(self, line: Seq<char>) -> Scan
        decreases line.len(),
    {
        if line.len() == 0 {
            self
        } else {
            self.read_all(line.drop_last()).read(line.last())
        }
    }
}

/// What a shell knows before it has read anything.
pub open spec fn scan_start() -> Scan {
    Scan { words: Seq::empty(), word: None, mode: Mode::Plain }
}

/// The words that a POSIX shell splits a line into, if every unquoted character in it is plain.
pub open spec fn shell_words(line: Seq<char>) -> Option<Seq<Seq<char>>> {
    let end = scan_start().read_all(line);
    if end.mode is Plain {
        Some(end.complete())
    } else {
        None
    }
}

proof fn lemma_read_concat(scan: Scan, front: Seq<char>, back: Seq<char>)
    ensures
        scan.read_all(front + back) == scan.read_all(front).read_all(back),
    decreases back.len(),
{
    if back.len() == 0 {
        assert(front + back =~= front);
    } else {
        assert((front + back).drop_last() =~= front + back.drop_last());
        lemma_read_concat(scan, front, back.drop_last());
    }
}

proof fn lemma_read_one(scan: Scan, c: char)
    ensures
        scan.read_all(seq![c]) == scan.read(c),
{
    assert(seq![c].drop_last() =~= Seq::<char>::empty());
    reveal_with_fuel(Scan::read_all, 2);
}

/// Plain characters add to the word that is being read.
proof fn lemma_read_plain(scan: Scan, word: Seq<char>)
    requires
        scan.mode is Plain,
        word.len() > 0,
        forall|i: int| 0 <= i < word.len() ==> is_plain(#[trigger] word[i]),
    ensures
        scan.read_all(word) == (Scan { word: Some(scan.so_far() + word), ..scan }),
    decreases word.len(),
{
    let front = word.drop_last();
    if front.len() == 0 {
        assert(word =~= seq![word[0]]);
        lemma_read_one(scan, word[0]);
        assert(scan.so_far().push(word[0]) =~= scan.so_far() + word);
    } else {
        assert forall|i: int| 0 <= i < front.len() implies is_plain(#[trigger] front[i]) by {
            assert(front[i] == word[i]);
        }
        lemma_read_plain(scan, front);
        assert((scan.so_far() + front).push(word.last()) =~= scan.so_far() + word);
    }
}

/// Quoted characters add to the word that is being read, and leave the quotes open.
proof fn lemma_read_quoted(scan: Scan, word: Seq<char>)
    requires
        scan.mode is Quoted,
        scan.word is Some,
    ensures
        scan.read_all(quoted_chars(word)) == (Scan { word: Some(scan.so_far() + word), ..scan }),
    decreases word.len(),
{
    if word.len() == 0 {
        assert(scan.so_far() + word =~= scan.so_far());
    } else {
        let front = word.drop_last();
        let c = word.last();
        lemma_read_quoted(scan, front);
        lemma_read_concat(scan, quoted_chars(front), quoted_char(c));
        let mid = scan.read_all(quoted_chars(front));
        assert((scan.so_far() + front).push(c) =~= scan.so_far() + word);
        if c == '\'' || c == '!' {
            let quoted = quoted_char(c);
            assert(quoted =~= seq!['\''] + seq!['\\'] + seq![c] + seq!['\'']);
            lemma_read_concat(mid, seq!['\''] + seq!['\\'] + seq![c], seq!['\'']);
            lemma_read_concat(mid, seq!['\''] + seq!['\\'], seq![c]);
            lemma_read_concat(mid, seq!['\''], seq!['\\']);
            lemma_read_one(mid, '\'');
            let m1 = mid.read('\'');
            lemma_read_one(m1, '\\');
            let m2 = m1.read('\\');
            lemma_read_one(m2, c);
            let m3 = m2.read(c);
            lemma_read_one(m3, '\'');
        } else {
            lemma_read_one(mid, c);
        }
    }
}

/// An escaped word adds its characters to the word that is being read.
proof fn lemma_read_escaped(scan: Scan, word: Seq<char>)
    requires
        scan.mode is Plain,
        scan.word is None,
    ensures
        scan.read_all(escaped(word)) == (Scan { word: Some(word), ..scan }),
{
    if word.len() > 0 && forall|i: int| 0 <= i < word.len() ==> is_plain(#[trigger] word[i]) {
        lemma_read_plain(scan, word);
        assert(scan.so_far() + word =~= word);
    } else {
        let open = seq!['\''];
        lemma_read_concat(scan, open + quoted_chars(word), open);
        lemma_read_concat(scan, open, quoted_chars(word));
        lemma_read_one(scan, '\'');
        let quoted = scan.read('\'');
        lemma_read_quoted(quoted, word);
        assert(quoted.so_far() + word =~= word);
        let end = quoted.read_all(quoted_chars(word));
        lemma_read_one(end, '\'');
    }
}

proof fn lemma_read_line(words: Seq<Seq<char>>)
    requires
        words.len() > 0,
    ensures
        ({
            let end = scan_start().read_all(command_line(words));
            &&& end.mode is Plain
            &&& end.word == Some(words.last())
            &&& end.words == words.drop_last()
        }),
    decreases words.len(),
{
    if words.len() == 1 {
        lemma_read_escaped(scan_start(), words[0]);
        assert(words.drop_last() =~= Seq::<Seq<char>>::empty());
    } else {
        let front = words.drop_last();
        lemma_read_line(front);
        let line = command_line(front);
        lemma_read_concat(scan_start(), line + seq![' '], escaped(words.last()));
        lemma_read_concat(scan_start(), line, seq![' ']);
        let mid = scan_start().read_all(line);
        lemma_read_one(mid, ' ');
        assert(front.drop_last().push(front.last()) =~= front);
        lemma_read_escaped(mid.read(' '), words.last());
    }
}

/// By the rules for spaces, single quotes and backslashes, a POSIX shell splits the line of a
/// command into exactly the words of the command, whatever characters they hold.
pub proof fn law_shell_reads_command_back(words: Seq<Seq<char>>)
    ensures
        shell_words(command_line(words)) == Some(words),
{
    if words.len() == 0 {
        assert(scan_start().complete() =~= words);
    } else {
        lemma_read_line(words);
        assert(words.drop_last().push(words.last()) =~= words);
    }
}

/// Two different commands never have the same line.
pub proof fn law_command_line_injective(left: Seq<Seq<char>>, right: Seq<Seq<char>>)
    requires
        command_line(left) == command_line(right),
    ensures
        left == right,
{
    law_shell_reads_command_back(left);
    law_shell_reads_command_back(right);
}

} // verus!
