use fed::syntax::{highlight_names, split_chunks, Chunk, ChunkType, Viewport};

fn line_text(line: &[Chunk]) -> String {
    line.iter().map(|c| c.contents).collect::<Vec<&str>>().join("")
}

#[test]
fn test_split_chunk() {
    let chunk = Chunk {
        contents: "Hello, world!\nThis is a test",
        start: 0,
        end: 0,
        typ: ChunkType::Plain,
    };

    let chunks = chunk.split('\n');
    assert_eq!(chunks.len(), 2);
    assert_eq!(chunks[0].contents, "Hello, world!");
    assert_eq!(chunks[1].contents, "This is a test");
}

#[test]
fn test_split_chunks() {
    let chunks = vec![
        Chunk {
            contents: "function main() {\n    ",
            start: 0,
            end: 0,
            typ: ChunkType::Plain,
        },
        Chunk {
            contents: "println!(\"Hello, world!\");\n}",
            start: 0,
            end: 0,
            typ: ChunkType::Plain,
        },
    ];

    let lines = split_chunks(chunks);
    println!("lines: {:?}", lines);
    let line = line_text(&lines[0]);
    assert_eq!(line, "function main() {");

    let line = line_text(&lines[1]);
    assert_eq!(line, "    println!(\"Hello, world!\");");

    let line = line_text(&lines[2]);
    assert_eq!(line, "}");
}

#[test]
fn the_first_piece_of_a_chunk_keeps_its_kind() {
    let chunk = Chunk { contents: "/* a\n b\n c */", start: 3, end: 16, typ: ChunkType::Comment };
    let pieces = chunk.split('\n');
    assert_eq!(pieces.len(), 3);
    assert_eq!(pieces[0].contents, "/* a");
    assert_eq!(pieces[1].contents, " b");
    assert_eq!(pieces[2].contents, " c */");
    assert_eq!(pieces[0].typ, ChunkType::Comment);
    assert_eq!(pieces[1].typ, ChunkType::Plain);
    assert_eq!(pieces[2].typ, ChunkType::Plain);
    for piece in pieces.iter() {
        assert_eq!((piece.start, piece.end), (3, 16));
    }
    let whole = Chunk { contents: "abc", start: 0, end: 3, typ: ChunkType::Keyword }.split('\n');
    assert_eq!(whole.len(), 1);
    assert_eq!(whole[0].contents, "abc");
    assert_eq!(whole[0].typ, ChunkType::Keyword);
    let empty = Chunk::with_type(ChunkType::String).split('\n');
    assert_eq!(empty.len(), 1);
    assert_eq!(empty[0].contents, "");
    assert_eq!(empty[0].typ, ChunkType::String);
}

#[test]
fn chunks_are_made() {
    let chunk = Chunk::default();
    assert_eq!((chunk.contents, chunk.start, chunk.end, chunk.typ), ("", 0, 0, ChunkType::Plain));
    let chunk = Chunk::with_type(ChunkType::Tag);
    assert_eq!((chunk.contents, chunk.start, chunk.end, chunk.typ), ("", 0, 0, ChunkType::Tag));
    let chunk = Chunk::from_source(2, 5, "abc");
    assert_eq!((chunk.contents, chunk.start, chunk.end, chunk.typ), ("abc", 2, 5, ChunkType::Plain));
}

#[test]
fn the_text_of_each_line_of_chunks_is_the_line_of_the_text() {
    let texts = vec![
        vec!["fn main() {\n", "    ", "let", " ", "s", " = ", "\"a\nb\"", ";\n}\n"],
        vec![],
        vec![""],
        vec!["\n"],
        vec!["\n", "\n\n"],
        vec!["a", "b", "c"],
        vec!["a\n", "", "\nb"],
    ];
    for pieces in texts {
        let chunks: Vec<Chunk> = pieces
            .iter()
            .map(|p| Chunk { contents: p, start: 0, end: 0, typ: ChunkType::String })
            .collect();
        let text = pieces.concat();
        let lines = split_chunks(chunks);
        let want: Vec<&str> = text.split('\n').collect();
        assert_eq!(lines.len(), want.len(), "{:?}", pieces);
        for (line, want) in lines.iter().zip(want.iter()) {
            assert_eq!(&line_text(line), want, "{:?}", pieces);
            for chunk in line.iter() {
                assert!(!chunk.contents.contains('\n'));
            }
        }
    }
}

#[test]
fn chunks_without_line_feeds_stay_on_one_line() {
    let chunks = vec![
        Chunk { contents: "let", start: 0, end: 3, typ: ChunkType::Keyword },
        Chunk { contents: " x", start: 3, end: 5, typ: ChunkType::Plain },
    ];
    let lines = split_chunks(chunks);
    assert_eq!(lines.len(), 1);
    assert_eq!(lines[0].len(), 2);
    assert_eq!(lines[0][0].typ, ChunkType::Keyword);
    let none = split_chunks(vec![]);
    assert_eq!(none.len(), 1);
    assert!(none[0].is_empty());
}

#[test]
fn the_viewport_picks_the_rows_in_sight() {
    let rows: Vec<u32> = (0..10).collect();
    let clamp = |top: usize, height: usize| {
        Viewport::new(top, 0, 80, height).clamp_lines(&rows).to_vec()
    };
    assert_eq!(clamp(0, 3), vec![0, 1, 2]);
    assert_eq!(clamp(4, 3), vec![4, 5, 6]);
    assert_eq!(clamp(8, 3), vec![8, 9]);
    assert_eq!(clamp(9, 3), vec![9]);
    assert_eq!(clamp(10, 3), Vec::<u32>::new());
    assert_eq!(clamp(11, 3), Vec::<u32>::new());
    assert_eq!(clamp(usize::MAX, usize::MAX), Vec::<u32>::new());
    assert_eq!(clamp(2, usize::MAX), vec![2, 3, 4, 5, 6, 7, 8, 9]);
    assert_eq!(clamp(0, 0), Vec::<u32>::new());
    assert_eq!(clamp(0, 10).len(), 10);
    assert_eq!(clamp(0, 24).len(), 10);
    let none: Vec<u32> = vec![];
    assert_eq!(Viewport::new(0, 0, 80, 24).clamp_lines(&none).len(), 0);
    for top in 0..12usize {
        for height in 0..12usize {
            let want = if top < 10 { height.min(10 - top) } else { 0 };
            assert_eq!(clamp(top, height).len(), want);
        }
    }
}

#[test]
fn the_kinds_and_their_names() {
    let names = highlight_names();
    assert_eq!(names.len(), 52);
    assert_eq!(names[0], "attribute");
    assert_eq!(names[2], "carriage-return");
    assert_eq!(names[14], "keyword");
    assert_eq!(names[51], "variable.parameter");
    for (i, name) in names.iter().enumerate() {
        assert_eq!(ChunkType::from_index(i).unwrap().as_str(), *name);
    }
    assert_eq!(ChunkType::from_index(52), None);
    assert_eq!(ChunkType::from_index(usize::MAX), None);
    assert_eq!(ChunkType::from_index(14), Some(ChunkType::Keyword));
    assert_eq!(ChunkType::Plain.as_str(), "none");
}

#[test]
fn the_scopes_of_the_kinds() {
    assert_eq!(ChunkType::Plain.theme_scope(), None);
    assert_eq!(ChunkType::Keyword.theme_scope(), Some("keyword"));
    assert_eq!(ChunkType::Attribute.theme_scope(), Some("entity.other.attribute-name"));
    assert_eq!(ChunkType::Function.theme_scope(), Some("entity.name.function"));
    assert_eq!(ChunkType::StringEscape.theme_scope(), Some("constant.character.escape"));
    assert_eq!(ChunkType::Module.theme_scope(), Some("No direct equivalent"));
    assert_eq!(ChunkType::CarriageReturn.theme_scope(), Some("No direct equivalent"));
    assert_eq!(ChunkType::VariableParameter.theme_scope(), Some("variable.parameter"));
    for i in 0..52 {
        assert!(ChunkType::from_index(i).unwrap().theme_scope().is_some());
    }
}
