//! Emits the source text of a wire codec from a schema of enums and requests.
//!
//! Every list of the schema is ordered: variants, requests and body fields are
//! emitted in the order in which they stand, which is the wire order of a body.
use vstd::prelude::*;
use vstd::string::StringSliceAdditionalSpecFns;
use crate::text::{decimal, lemma_append_assoc, put_bytes, put_decimal, put_str};

verus! {

/// An enum of the schema: its integer representation and its variants.
pub struct EnumFormat {
    /// The name of the integer type, such as `u16`.
    pub repr: Vec<u8>,
    /// Each variant's name and value, in declaration order.
    pub variants: Vec<(Vec<u8>, usize)>,
}

/// A request of the schema.
pub struct RequestFormat {
    pub major_opcode: u8,
    /// `None` matches any minor opcode when reading, and writes zero.
    pub minor_opcode: Option<u8>,
    /// Each body field's name and type, in wire order.
    pub body: Vec<(Vec<u8>, Vec<u8>)>,
}

/// A whole schema: named enums and named requests.
pub struct XimFormat {
    pub enums: Vec<(Vec<u8>, EnumFormat)>,
    pub requests: Vec<(Vec<u8>, RequestFormat)>,
}

pub open spec fn lit(s: &str) -> Seq<u8> {
    s.spec_bytes()
}

/// The concatenation of `f(x)` over the items `x` of `s`, in order.
pub open spec fn concat_map<A>(s: Seq<A>, f: spec_fn(A) -> Seq<u8>) -> Seq<u8>
    decreases s.len(),
{
    if s.len() == 0 {
        Seq::empty()
    } else {
        concat_map(s.drop_last(), f) + f(s.last())
    }
}

pub proof fn lemma_concat_map_step<A>(s: Seq<A>, f: spec_fn(A) -> Seq<u8>, i: int)
    requires
        0 <= i < s.len(),
    ensures
        concat_map(s.subrange(0, i + 1), f) == concat_map(s.subrange(0, i), f) + f(s[i]),
{
    assert(s.subrange(0, i + 1).drop_last() =~= s.subrange(0, i));
}

pub proof fn lemma_concat_map_full<A>(s: Seq<A>, f: spec_fn(A) -> Seq<u8>)
    ensures
        concat_map(s.subrange(0, s.len() as int), f) == concat_map(s, f),
{
    assert(s.subrange(0, s.len() as int) =~= s);
}

/// `{name} = {value},` for one enum variant.
pub open spec fn variant_decl(v: (Vec<u8>, usize)) -> Seq<u8> {
    v.0@ + lit(" = ") + decimal(v.1 as nat) + lit(",\n")
}

/// `{value} => Ok(Self::{name}),` for one enum variant.
pub open spec fn variant_arm(v: (Vec<u8>, usize)) -> Seq<u8> {
    decimal(v.1 as nat) + lit(" => Ok(Self::") + v.0@ + lit("),\n")
}

/// The variant lines of an enum: declarations (`kind == 0`) or read arms.
pub open spec fn variant_line(kind: u8) -> spec_fn((Vec<u8>, usize)) -> Seq<u8> {
    if kind == 0 {
        |v: (Vec<u8>, usize)| variant_decl(v)
    } else {
        |v: (Vec<u8>, usize)| variant_arm(v)
    }
}

/// The source text emitted for the enum `name`.
pub open spec fn enum_text(name: Seq<u8>, e: &EnumFormat) -> Seq<u8> {
    lit("#[derive(Clone, Copy, Debug, PartialEq, Eq)]\n#[repr(") + e.repr@ + lit(")]\npub enum ")
        + name + lit(" {\n") + concat_map(e.variants@, variant_line(0)) + lit("}\n")
        + lit("impl<'b> XimFormat<'b> for ") + name + lit(" {\n")
        + lit("fn read(reader: &mut Reader<'b>) -> Result<Self, ReadError> {\nlet repr = ")
        + e.repr@ + lit("::read(reader)?;\nmatch repr {\n") + concat_map(
        e.variants@,
        variant_line(1),
    ) + lit("_ => Err(reader.invalid_data(\"") + name + lit("\", repr)),\n}\n}\n")
        + lit("fn write(&self, writer: &mut Writer) {\n(*self as ") + e.repr@ + lit(
        ").write(writer);\n}\n",
    ) + lit("fn size(&self) -> usize {\nstd::mem::size_of::<") + e.repr@ + lit(">()\n}\n}\n")
}

fn put_variants(out: &mut Vec<u8>, vs: &Vec<(Vec<u8>, usize)>, kind: u8)
    ensures
        final(out)@ == old(out)@ + concat_map(vs@, variant_line(kind)),
{
    let ghost f = variant_line(kind);
    let mut i: usize = 0;
    while i < vs.len()
        invariant
            i <= vs@.len(),
            f == variant_line(kind),
            out@ == old(out)@ + concat_map(vs@.subrange(0, i as int), f),
        decreases vs@.len() - i,
    {
        let ghost before = out@;
        let v = &vs[i];
        if kind == 0 {
            put_bytes(out, v.0.as_slice());
            put_str(out, " = ");
            put_decimal(out, v.1 as u64);
            put_str(out, ",\n");
        } else {
            put_decimal(out, v.1 as u64);
            put_str(out, " => Ok(Self::");
            put_bytes(out, v.0.as_slice());
            put_str(out, "),\n");
        }
        proof {
            lemma_concat_map_step(vs@, f, i as int);
            assert(out@ =~= before + f(vs@[i as int]));
        }
        i = i + 1;
    }
    proof {
        lemma_concat_map_full(vs@, f);
    }
}

impl EnumFormat {
    /// Appends to `out` the source text of the enum `name`: its declaration
    /// with explicit values, and a codec impl that reads the representation and
    /// rejects any value that names no variant.
    pub fn write(&self, name: &[u8], out: &mut Vec<u8>)
        ensures
            final(out)@ == old(out)@ + enum_text(name@, self),
    {
        broadcast use lemma_append_assoc;

        let ghost start = out@;
        put_str(out, "#[derive(Clone, Copy, Debug, PartialEq, Eq)]\n#[repr(");
        put_bytes(out, self.repr.as_slice());
        put_str(out, ")]\npub enum ");
        put_bytes(out, name);
        put_str(out, " {\n");
        put_variants(out, &self.variants, 0);
        put_str(out, "}\n");
        put_str(out, "impl<'b> XimFormat<'b> for ");
        put_bytes(out, name);
        put_str(out, " {\n");
        put_str(out, "fn read(reader: &mut Reader<'b>) -> Result<Self, ReadError> {\nlet repr = ");
        put_bytes(out, self.repr.as_slice());
        put_str(out, "::read(reader)?;\nmatch repr {\n");
        put_variants(out, &self.variants, 1);
        put_str(out, "_ => Err(reader.invalid_data(\"");
        put_bytes(out, name);
        put_str(out, "\", repr)),\n}\n}\n");
        put_str(out, "fn write(&self, writer: &mut Writer) {\n(*self as ");
        put_bytes(out, self.repr.as_slice());
        put_str(out, ").write(writer);\n}\n");
        put_str(out, "fn size(&self) -> usize {\nstd::mem::size_of::<");
        put_bytes(out, self.repr.as_slice());
        put_str(out, ">()\n}\n}\n");
        assert(out@ == start + enum_text(name@, self));
    }
}

/// The line of one body field, by `kind`: 0 declares it, 1 reads it, 2 binds
/// it in a pattern, 3 writes it and 4 adds its size.
pub open spec fn field_text(kind: u8, f: (Vec<u8>, Vec<u8>)) -> Seq<u8> {
    if kind == 0 {
        f.0@ + lit(": ") + f.1@ + lit(",\n")
    } else if kind == 1 {
        f.0@ + lit(": XimFormat::read(reader)?,\n")
    } else if kind == 2 {
        f.0@ + lit(", ")
    } else if kind == 3 {
        f.0@ + lit(".write(writer);\n")
    } else {
        lit("content_size += ") + f.0@ + lit(".size();\n")
    }
}

pub open spec fn field_line(kind: u8) -> spec_fn((Vec<u8>, Vec<u8>)) -> Seq<u8> {
    |f: (Vec<u8>, Vec<u8>)| field_text(kind, f)
}

fn put_fields(out: &mut Vec<u8>, body: &Vec<(Vec<u8>, Vec<u8>)>, kind: u8)
    ensures
        final(out)@ == old(out)@ + concat_map(body@, field_line(kind)),
{
    let ghost f = field_line(kind);
    let mut i: usize = 0;
    while i < body.len()
        invariant
            i <= body@.len(),
            f == field_line(kind),
            out@ == old(out)@ + concat_map(body@.subrange(0, i as int), f),
        decreases body@.len() - i,
    {
        let ghost before = out@;
        let fl = &body[i];
        if kind == 0 {
            put_bytes(out, fl.0.as_slice());
            put_str(out, ": ");
            put_bytes(out, fl.1.as_slice());
            put_str(out, ",\n");
        } else if kind == 1 {
            put_bytes(out, fl.0.as_slice());
            put_str(out, ": XimFormat::read(reader)?,\n");
        } else if kind == 2 {
            put_bytes(out, fl.0.as_slice());
            put_str(out, ", ");
        } else if kind == 3 {
            put_bytes(out, fl.0.as_slice());
            put_str(out, ".write(writer);\n");
        } else {
            put_str(out, "content_size += ");
            put_bytes(out, fl.0.as_slice());
            put_str(out, ".size();\n");
        }
        proof {
            lemma_concat_map_step(body@, f, i as int);
            assert(out@ =~= before + f(body@[i as int]));
        }
        i = i + 1;
    }
    proof {
        lemma_concat_map_full(body@, f);
    }
}

/// The minor opcode as a read pattern: any minor where none is given.
pub open spec fn minor_pattern(m: Option<u8>) -> Seq<u8> {
    match m {
        Some(v) => decimal(v as nat),
        None => lit("_"),
    }
}

/// The text of one request, by `kind`: 0 declares its variant, 1 is its read
/// arm, 2 its write arm and 3 its size arm.
pub open spec fn request_text(kind: u8, name: Seq<u8>, r: &RequestFormat) -> Seq<u8> {
    if kind == 0 {
        name + lit(" {\n") + concat_map(r.body@, field_line(0)) + lit("},\n")
    } else if kind == 1 {
        lit("(") + decimal(r.major_opcode as nat) + lit(", ") + minor_pattern(r.minor_opcode)
            + lit(") => Ok(Request::") + name + lit(" {\n") + concat_map(r.body@, field_line(1))
            + lit("}),\n")
    } else if kind == 2 {
        lit("Request::") + name + lit(" {\n") + concat_map(r.body@, field_line(2)) + lit(
            "} => {\n",
        ) + decimal(r.major_opcode as nat) + lit("u8.write(writer);\n") + decimal(
            match r.minor_opcode {
                Some(v) => v as nat,
                None => 0,
            },
        ) + lit("u8.write(writer);\n(((self.size() - 4) / 4) as u16).write(writer);\n")
            + concat_map(r.body@, field_line(3)) + lit("}\n")
    } else {
        lit("Request::") + name + lit(" {\n") + concat_map(r.body@, field_line(2)) + lit(
            "} => {\n",
        ) + concat_map(r.body@, field_line(4)) + lit("}\n")
    }
}

pub open spec fn request_line(kind: u8) -> spec_fn((Vec<u8>, RequestFormat)) -> Seq<u8> {
    |r: (Vec<u8>, RequestFormat)| request_text(kind, r.0@, &r.1)
}

fn put_request(out: &mut Vec<u8>, name: &[u8], r: &RequestFormat, kind: u8)
    ensures
        final(out)@ == old(out)@ + request_text(kind, name@, r),
{
    broadcast use lemma_append_assoc;

    let ghost start = out@;
    if kind == 0 {
        put_bytes(out, name);
        put_str(out, " {\n");
        put_fields(out, &r.body, 0);
        put_str(out, "},\n");
    } else if kind == 1 {
        put_str(out, "(");
        put_decimal(out, r.major_opcode as u64);
        put_str(out, ", ");
        match r.minor_opcode {
            Some(v) => put_decimal(out, v as u64),
            None => put_str(out, "_"),
        }
        put_str(out, ") => Ok(Request::");
        put_bytes(out, name);
        put_str(out, " {\n");
        put_fields(out, &r.body, 1);
        put_str(out, "}),\n");
    } else if kind == 2 {
        put_str(out, "Request::");
        put_bytes(out, name);
        put_str(out, " {\n");
        put_fields(out, &r.body, 2);
        put_str(out, "} => {\n");
        put_decimal(out, r.major_opcode as u64);
        put_str(out, "u8.write(writer);\n");
        let minor: u8 = match r.minor_opcode {
            Some(v) => v,
            None => 0,
        };
        put_decimal(out, minor as u64);
        put_str(out, "u8.write(writer);\n(((self.size() - 4) / 4) as u16).write(writer);\n");
        put_fields(out, &r.body, 3);
        put_str(out, "}\n");
    } else {
        put_str(out, "Request::");
        put_bytes(out, name);
        put_str(out, " {\n");
        put_fields(out, &r.body, 2);
        put_str(out, "} => {\n");
        put_fields(out, &r.body, 4);
        put_str(out, "}\n");
    }
    assert(out@ == start + request_text(kind, name@, r));
}

fn put_requests(out: &mut Vec<u8>, reqs: &Vec<(Vec<u8>, RequestFormat)>, kind: u8)
    ensures
        final(out)@ == old(out)@ + concat_map(reqs@, request_line(kind)),
{
    let ghost f = request_line(kind);
    let mut i: usize = 0;
    while i < reqs.len()
        invariant
            i <= reqs@.len(),
            f == request_line(kind),
            out@ == old(out)@ + concat_map(reqs@.subrange(0, i as int), f),
        decreases reqs@.len() - i,
    {
        let ghost before = out@;
        let r = &reqs[i];
        put_request(out, r.0.as_slice(), &r.1, kind);
        proof {
            lemma_concat_map_step(reqs@, f, i as int);
            assert(out@ =~= before + f(reqs@[i as int]));
        }
        i = i + 1;
    }
    proof {
        lemma_concat_map_full(reqs@, f);
    }
}

pub open spec fn enum_line() -> spec_fn((Vec<u8>, EnumFormat)) -> Seq<u8> {
    |e: (Vec<u8>, EnumFormat)| enum_text(e.0@, &e.1)
}

/// The source text emitted for a whole schema.
pub open spec fn format_text(x: &XimFormat) -> Seq<u8> {
    concat_map(x.enums@, enum_line()) + lit("#[derive(Debug, Clone, Eq, PartialEq)]\n")
        + lit("pub enum Request<'b> {\n") + concat_map(x.requests@, request_line(0)) + lit("}\n")
        + lit("impl<'b> XimFormat<'b> for Request<'b> {\n")
        + lit("fn read(reader: &mut Reader<'b>) -> Result<Self, ReadError> {\n")
        + lit("let major_opcode = u8::read(reader)?;\nlet minor_opcode = u8::read(reader)?;\n")
        + lit("let _length = u16::read(reader)?;\nmatch (major_opcode, minor_opcode) {\n")
        + concat_map(x.requests@, request_line(1)) + lit(
        "_ => Err(reader.invalid_data(\"Opcode\", format!(\"({}, {})\", major_opcode, minor_opcode))),\n}\n}\n",
    ) + lit("fn write(&self, writer: &mut Writer) {\nmatch self {\n") + concat_map(
        x.requests@,
        request_line(2),
    ) + lit("}\n}\n") + lit("fn size(&self) -> usize {\nlet mut content_size = 0;\nmatch self {\n")
        + concat_map(x.requests@, request_line(3)) + lit("}\ncontent_size + 4\n}\n}\n")
}

fn put_enums(out: &mut Vec<u8>, enums: &Vec<(Vec<u8>, EnumFormat)>)
    ensures
        final(out)@ == old(out)@ + concat_map(enums@, enum_line()),
{
    let ghost f = enum_line();
    let mut i: usize = 0;
    while i < enums.len()
        invariant
            i <= enums@.len(),
            f == enum_line(),
            out@ == old(out)@ + concat_map(enums@.subrange(0, i as int), f),
        decreases enums@.len() - i,
    {
        let ghost before = out@;
        let e = &enums[i];
        e.1.write(e.0.as_slice(), out);
        proof {
            lemma_concat_map_step(enums@, f, i as int);
            assert(out@ =~= before + f(enums@[i as int]));
        }
        i = i + 1;
    }
    proof {
        lemma_concat_map_full(enums@, f);
    }
}

impl XimFormat {
    /// Appends to `out` the source text of the whole codec: every enum, then
    /// the request union with one read, write and size arm per request. Read
    /// matches on the opcode pair, with any minor where the schema gives none.
    pub fn write(&self, out: &mut Vec<u8>)
        ensures
            final(out)@ == old(out)@ + format_text(self),
    {
        broadcast use lemma_append_assoc;

        let ghost start = out@;
        put_enums(out, &self.enums);
        put_str(out, "#[derive(Debug, Clone, Eq, PartialEq)]\n");
        put_str(out, "pub enum Request<'b> {\n");
        put_requests(out, &self.requests, 0);
        put_str(out, "}\n");
        put_str(out, "impl<'b> XimFormat<'b> for Request<'b> {\n");
        put_str(out, "fn read(reader: &mut Reader<'b>) -> Result<Self, ReadError> {\n");
        put_str(out, "let major_opcode = u8::read(reader)?;\nlet minor_opcode = u8::read(reader)?;\n");
        put_str(out, "let _length = u16::read(reader)?;\nmatch (major_opcode, minor_opcode) {\n");
        put_requests(out, &self.requests, 1);
        put_str(
            out,
            "_ => Err(reader.invalid_data(\"Opcode\", format!(\"({}, {})\", major_opcode, minor_opcode))),\n}\n}\n",
        );
        put_str(out, "fn write(&self, writer: &mut Writer) {\nmatch self {\n");
        put_requests(out, &self.requests, 2);
        put_str(out, "}\n}\n");
        put_str(out, "fn size(&self) -> usize {\nlet mut content_size = 0;\nmatch self {\n");
        put_requests(out, &self.requests, 3);
        put_str(out, "}\ncontent_size + 4\n}\n}\n");
        assert(out@ == start + format_text(self));
    }
}

} // verus!
