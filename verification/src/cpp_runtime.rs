//! The secondary native emitter: fixed-width vector-type declarations as
//! text, plus a small read helper, for the native artifact compiled
//! downstream. Independent of the differentiation pipeline.

use vstd::prelude::*;
use crate::text::{dec_str, u64_to_string};

verus! {

/// One arithmetic operator member of the vector type.
pub open spec fn sp_vec_op(op: Seq<char>) -> Seq<char> {
    "Self operator "@ + op + " (const Self&rhs)const{\n    auto v = Self{};\n    for(int i=0;i<N;i++){ v[i] = a[i] "@
        + op + " rhs.a[i]; }\n    return v;\n}\n"@
}

/// One aligned fixed-width vector-type declaration.
pub open spec fn sp_generate_vec_lib_(ty: Seq<char>, n: nat, align: nat) -> Seq<char> {
    let vt = ty + "x"@ + dec_str(n);
    "struct alignas("@ + dec_str(align) + ") "@ + vt + " { "@ + ty + " a["@ + dec_str(n)
        + "];\nusing Self="@ + vt + ";static constexpr int N = "@ + dec_str(n)
        + ";Self()=default;\n"@ + "Self(const "@ + ty + "& x) {for(int i=0;i<N;i++)a[i] = x; }\n"@
        + sp_vec_op("+"@) + sp_vec_op("-"@) + sp_vec_op("*"@) + sp_vec_op("/"@) + "};\n"@
}

/// The two-, three- and four-lane float vector types.
pub open spec fn sp_generate_vec_lib() -> Seq<char> {
    sp_generate_vec_lib_("f32"@, 2, 8) + sp_generate_vec_lib_("f32"@, 3, 16)
        + sp_generate_vec_lib_("f32"@, 4, 16)
}

/// The whole native runtime library text.
pub open spec fn sp_generate_runtime_lib() -> Seq<char> {
    "template<class T>const T& read(const void* p){\n    return *reinterpret_cast<const T*>(p);\n}\n"@
        + sp_generate_vec_lib() + "\n"@
}

fn vec_op_text(op: &str) -> (s: String)
    ensures
        s@ == sp_vec_op(op@),
{
    let mut s = String::from_str("Self operator ");
    s.append(op);
    s.append(
        " (const Self&rhs)const{\n    auto v = Self{};\n    for(int i=0;i<N;i++){ v[i] = a[i] ",
    );
    s.append(op);
    s.append(" rhs.a[i]; }\n    return v;\n}\n");
    proof {
        assert(s@ =~= sp_vec_op(op@));
    }
    s
}

/// Emits one aligned vector-type declaration (see `sp_generate_vec_lib_`).
pub fn generate_vec_lib_(ty: String, n: usize, align: usize) -> (s: String)
    ensures
        s@ == sp_generate_vec_lib_(ty@, n as nat, align as nat),
{
    let mut vt = ty.clone();
    vt.append("x");
    let nd = u64_to_string(n as u64);
    vt.append(nd.as_str());
    let mut s = String::from_str("struct alignas(");
    let ad = u64_to_string(align as u64);
    s.append(ad.as_str());
    s.append(") ");
    s.append(vt.as_str());
    s.append(" { ");
    s.append(ty.as_str());
    s.append(" a[");
    s.append(nd.as_str());
    s.append("];\nusing Self=");
    s.append(vt.as_str());
    s.append(";static constexpr int N = ");
    s.append(nd.as_str());
    s.append(";Self()=default;\n");
    s.append("Self(const ");
    s.append(ty.as_str());
    s.append("& x) {for(int i=0;i<N;i++)a[i] = x; }\n");
    let p1 = vec_op_text("+");
    s.append(p1.as_str());
    let p2 = vec_op_text("-");
    s.append(p2.as_str());
    let p3 = vec_op_text("*");
    s.append(p3.as_str());
    let p4 = vec_op_text("/");
    s.append(p4.as_str());
    s.append("};\n");
    proof {
        assert(s@ =~= sp_generate_vec_lib_(ty@, n as nat, align as nat));
    }
    s
}

/// Emits the float vector types of two, three and four lanes (see
/// `sp_generate_vec_lib`).
pub fn generate_vec_lib() -> (s: String)
    ensures
        s@ == sp_generate_vec_lib(),
{
    let mut s = generate_vec_lib_(String::from_str("f32"), 2, 8);
    let b = generate_vec_lib_(String::from_str("f32"), 3, 16);
    s.append(b.as_str());
    let c = generate_vec_lib_(String::from_str("f32"), 4, 16);
    s.append(c.as_str());
    proof {
        assert(s@ =~= sp_generate_vec_lib());
    }
    s
}

/// Emits the whole native runtime library text (see
/// `sp_generate_runtime_lib`).
pub fn generate_runtime_lib() -> (s: String)
    ensures
        s@ == sp_generate_runtime_lib(),
{
    let mut s = String::from_str(
        "template<class T>const T& read(const void* p){\n    return *reinterpret_cast<const T*>(p);\n}\n",
    );
    let v = generate_vec_lib();
    s.append(v.as_str());
    s.append("\n");
    proof {
        assert(s@ =~= sp_generate_runtime_lib());
    }
    s
}

} // verus!
