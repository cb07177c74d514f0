use vstd::prelude::*;

verus! {

/// Offsets, relative to the start of the object, of the word reads that
/// begin at `pos`: full words while one still fits, then one final word
/// shifted back so that it ends exactly at `size`.
pub open spec fn read_offsets_from(pos: nat, size: nat, word: nat) -> Seq<nat>
    decreases size - pos,
{
    if word == 0 || pos >= size {
        seq![]
    } else if pos + word > size {
        seq![(size - word) as nat]
    } else {
        seq![pos].add(read_offsets_from(pos + word, size, word))
    }
}

/// Offsets of all word reads that capture `size` bytes: a single read at the
/// start when the object is smaller than one word.
pub open spec fn read_offsets(size: nat, word: nat) -> Seq<nat> {
    if size < word {
        seq![0nat]
    } else {
        read_offsets_from(0, size, word)
    }
}

/// The buffer built from the words read at `offs`: before each word is
/// appended the buffer is cut back to that word's offset.
pub open spec fn assemble(offs: Seq<nat>, words: Seq<Seq<u8>>) -> Seq<u8>
    decreases offs.len(),
{
    if offs.len() == 0 || words.len() == 0 {
        seq![]
    } else {
        assemble(offs.drop_last(), words.drop_last()).subrange(0, offs.last() as int)
            + words.last()
    }
}

/// The bytes reported for an object of `size` bytes read as `words`.
pub open spec fn captured(size: nat, word: nat, words: Seq<Seq<u8>>) -> Seq<u8> {
    assemble(read_offsets(size, word), words).subrange(0, size as int)
}

/// `words[k]` is what memory `mem` holds at the `k`-th read offset.
pub open spec fn words_agree(offs: Seq<nat>, words: Seq<Seq<u8>>, mem: Seq<u8>, word: nat) -> bool {
    &&& words.len() == offs.len()
    &&& forall|k: int|
        #![trigger words[k]]
        #![trigger offs[k]]
        0 <= k < offs.len() ==> offs[k] + word <= mem.len() && words[k] == mem.subrange(
            offs[k] as int,
            (offs[k] + word) as int,
        )
}

proof fn lemma_div_step(x: int, w: int)
    requires
        w > 0,
        x >= 0,
    ensures
        (x + w) / w == x / w + 1,
{
    assert((x + w) / w == x / w + 1) by (nonlinear_arith)
        requires
            w > 0,
            x >= 0,
    {
        assert(x == w * (x / w) + x % w);
        assert(0 <= x % w < w);
    }
}

proof fn lemma_div_one(x: int, w: int)
    requires
        w <= x < 2 * w,
    ensures
        x / w == 1,
{
    assert(x / w == 1) by (nonlinear_arith)
        requires
            w <= x < 2 * w,
            w > 0,
    {
        assert(x == w * (x / w) + x % w);
        assert(0 <= x % w < w);
    }
}

proof fn lemma_div_zero(x: int, w: int)
    requires
        0 <= x < w,
    ensures
        x / w == 0,
{
    assert(x / w == 0) by (nonlinear_arith)
        requires
            0 <= x < w,
    {
    }
}

/// Shape of the offsets that begin at `pos`.
proof fn lemma_offsets_from(pos: nat, size: nat, word: nat)
    requires
        word > 0,
        pos <= size,
        word <= size,
    ensures
        ({
            let f = read_offsets_from(pos, size, word);
            &&& f.len() == (size - pos + word - 1) / (word as int)
            &&& pos < size ==> f.len() > 0 && f[0] <= pos && f[0] + word > pos
            &&& pos < size ==> f.last() + word == size
            &&& forall|i: int| 0 <= i < f.len() ==> #[trigger] f[i] + word <= size
            &&& forall|i: int|
                0 <= i < f.len() - 1 ==> f[i] < #[trigger] f[i + 1] && f[i + 1] <= f[i] + word
        }),
    decreases size - pos,
{
    let f = read_offsets_from(pos, size, word);
    if pos >= size {
        lemma_div_zero(word - 1, word as int);
    } else if pos + word > size {
        lemma_div_one(size - pos + word - 1, word as int);
    } else {
        lemma_offsets_from(pos + word, size, word);
        let g = read_offsets_from(pos + word, size, word);
        assert(f == seq![pos].add(g));
        lemma_div_step(size - pos - 1, word as int);
        assert forall|i: int| 0 <= i < f.len() - 1 implies f[i] < #[trigger] f[i + 1] && f[i + 1]
            <= f[i] + word by {
            if i == 0 {
                assert(pos + word < size);
                assert(f[1] == g[0]);
            } else {
                let k = i - 1;
                assert(f[i] == g[k]);
                assert(f[i + 1] == g[k + 1]);
                assert(g[k] < g[k + 1]);
            }
        }
        assert forall|i: int| 0 <= i < f.len() implies #[trigger] f[i] + word <= size by {
            if i > 0 {
                assert(f[i] == g[i - 1]);
            }
        }
    }
}

/// The read plan: `ceil(size / word)` reads, at strictly increasing offsets;
/// once the object spans a word, every read lies inside the object, the first
/// at its start and the last ending at its end.
pub proof fn lemma_read_plan(size: nat, word: nat)
    requires
        size > 0,
        word > 0,
    ensures
        ({
            let offs = read_offsets(size, word);
            &&& offs.len() == (size + word - 1) / (word as int)
            &&& offs[0] == 0
            &&& forall|i: int| 0 <= i < offs.len() - 1 ==> offs[i] < #[trigger] offs[i + 1]
            &&& size >= word ==> forall|i: int| 0 <= i < offs.len() ==> #[trigger] offs[i] + word <= size
            &&& size >= word ==> offs.last() + word == size
        }),
{
    if size < word {
        lemma_div_one(size + word - 1, word as int);
    } else {
        lemma_offsets_from(0, size, word);
    }
}

proof fn lemma_assemble_prefix(offs: Seq<nat>, words: Seq<Seq<u8>>, mem: Seq<u8>, word: nat)
    requires
        offs.len() >= 1,
        offs[0] == 0,
        forall|i: int| 0 <= i < offs.len() - 1 ==> offs[i] <= #[trigger] offs[i + 1] <= offs[i] + word,
        words_agree(offs, words, mem, word),
    ensures
        assemble(offs, words) == mem.subrange(0, (offs.last() + word) as int),
    decreases offs.len(),
{
    let n = offs.len() - 1;
    let prev_offs = offs.drop_last();
    let prev_words = words.drop_last();
    assert(words[n] == mem.subrange(offs[n] as int, (offs[n] + word) as int));
    if n == 0 {
        assert(assemble(prev_offs, prev_words) == Seq::<u8>::empty());
        assert(assemble(offs, words) =~= mem.subrange(0, (offs.last() + word) as int));
    } else {
        assert forall|i: int| 0 <= i < prev_offs.len() - 1 implies prev_offs[i] <= #[trigger] prev_offs[i + 1]
            <= prev_offs[i] + word by {
            assert(offs[i] <= offs[i + 1] <= offs[i] + word);
        }
        assert forall|k: int| #![trigger prev_words[k]] #![trigger prev_offs[k]]
            0 <= k < prev_offs.len() implies prev_offs[k] + word <= mem.len() && prev_words[k]
            == mem.subrange(prev_offs[k] as int, (prev_offs[k] + word) as int) by {
            assert(words[k] == mem.subrange(offs[k] as int, (offs[k] + word) as int));
        }
        assert(prev_words.len() == prev_offs.len());
        assert(words_agree(prev_offs, prev_words, mem, word));
        lemma_assemble_prefix(prev_offs, prev_words, mem, word);
        let j = n - 1;
        assert(offs[j] <= offs[j + 1] <= offs[j] + word);
        assert(assemble(offs, words) =~= mem.subrange(0, (offs.last() + word) as int));
    }
}

/// Whatever memory the object lies in, the reported bytes are exactly its
/// first `size` bytes when each word read returns what memory holds there.
pub proof fn lemma_capture_exact(size: nat, word: nat, words: Seq<Seq<u8>>, mem: Seq<u8>)
    requires
        size > 0,
        word > 0,
        words_agree(read_offsets(size, word), words, mem, word),
    ensures
        captured(size, word, words) == mem.subrange(0, size as int),
{
    let offs = read_offsets(size, word);
    lemma_read_plan(size, word);
    assert forall|i: int| 0 <= i < offs.len() - 1 implies offs[i] <= #[trigger] offs[i + 1] <= offs[i]
        + word by {
        if size >= word {
            lemma_offsets_from(0, size, word);
        }
    }
    assert(words[0] == mem.subrange(offs[0] as int, (offs[0] + word) as int));
    lemma_assemble_prefix(offs, words, mem, word);
    if size < word {
        assert(captured(size, word, words) =~= mem.subrange(0, size as int));
    } else {
        assert(captured(size, word, words) =~= mem.subrange(0, size as int));
    }
}

} // verus!
