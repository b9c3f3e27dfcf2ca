//! The commands that stand for one symbol or one function name.

use crate::text::str_eq;
use vstd::prelude::*;

verus! {

/// Whether `name` is a command that the formula parser turns into one
/// symbol, or into the name of a function, and that takes no argument:
/// Greek and Hebrew letters, operators, relations, arrows, dots and the
/// named functions.
pub open spec fn is_simple_command(name: Seq<char>) -> bool {
    name == "alpha"@ || name == "beta"@ || name == "gamma"@ || name == "delta"@
    || name == "epsilon"@ || name == "zeta"@ || name == "eta"@ || name == "theta"@
    || name == "iota"@ || name == "kappa"@ || name == "lambda"@ || name == "mu"@
    || name == "nu"@ || name == "xi"@ || name == "pi"@ || name == "rho"@ || name == "sigma"@
    || name == "tau"@ || name == "upsilon"@ || name == "phi"@ || name == "chi"@
    || name == "psi"@ || name == "omega"@ || name == "omicron"@ || name == "Alpha"@
    || name == "Beta"@ || name == "Gamma"@ || name == "Delta"@ || name == "Epsilon"@
    || name == "Zeta"@ || name == "Eta"@ || name == "Theta"@ || name == "Iota"@
    || name == "Kappa"@ || name == "Lambda"@ || name == "Mu"@ || name == "Nu"@ || name == "Xi"@
    || name == "Pi"@ || name == "Rho"@ || name == "Sigma"@ || name == "Tau"@
    || name == "Upsilon"@ || name == "Phi"@ || name == "Chi"@ || name == "Psi"@
    || name == "Omega"@ || name == "Omicron"@ || name == "varepsilon"@ || name == "vartheta"@
    || name == "varkappa"@ || name == "varrho"@ || name == "varsigma"@ || name == "varpi"@
    || name == "varphi"@ || name == "varGamma"@ || name == "varDelta"@ || name == "varTheta"@
    || name == "varLambda"@ || name == "varXi"@ || name == "varPi"@ || name == "varSigma"@
    || name == "varUpsilon"@ || name == "varPhi"@ || name == "varPsi"@ || name == "varOmega"@
    || name == "aleph"@ || name == "beth"@ || name == "gimel"@ || name == "daleth"@
    || name == "digamma"@ || name == "eth"@ || name == "ell"@ || name == "nabla"@
    || name == "partial"@ || name == "Finv"@ || name == "Game"@ || name == "hbar"@
    || name == "hslash"@ || name == "imath"@ || name == "jmath"@ || name == "Im"@
    || name == "Re"@ || name == "wp"@ || name == "Bbbk"@ || name == "Angstrom"@
    || name == "backepsilon"@ || name == "ldots"@ || name == "dotso"@ || name == "dotsc"@
    || name == "cdots"@ || name == "dotsi"@ || name == "dotsm"@ || name == "dotsb"@
    || name == "idotsin"@ || name == "ddots"@ || name == "iddots"@ || name == "vdots"@
    || name == "mathellipsis"@ || name == "infty"@ || name == "checkmark"@ || name == "ballotx"@
    || name == "dagger"@ || name == "dag"@ || name == "ddagger"@ || name == "ddag"@
    || name == "angle"@ || name == "measuredangle"@ || name == "lq"@ || name == "Box"@
    || name == "sphericalangle"@ || name == "square"@ || name == "top"@ || name == "rq"@
    || name == "blacksquare"@ || name == "bot"@ || name == "triangledown"@ || name == "Bot"@
    || name == "triangleleft"@ || name == "triangleright"@ || name == "cent"@
    || name == "colon"@ || name == "ratio"@ || name == "vcentcolon"@
    || name == "bigtriangledown"@ || name == "pounds"@ || name == "mathsterling"@
    || name == "bigtriangleup"@ || name == "blacktriangle"@ || name == "blacktriangledown"@
    || name == "yen"@ || name == "blacktriangleleft"@ || name == "euro"@
    || name == "blacktriangleright"@ || name == "Diamond"@ || name == "degree"@
    || name == "lozenge"@ || name == "blacklozenge"@ || name == "mho"@ || name == "bigstar"@
    || name == "diagdown"@ || name == "maltese"@ || name == "diagup"@ || name == "P"@
    || name == "clubsuit"@ || name == "varclubsuit"@ || name == "S"@ || name == "diamondsuit"@
    || name == "vardiamondsuit"@ || name == "copyright"@ || name == "heartsuit"@
    || name == "varheartsuit"@ || name == "circledR"@ || name == "spadesuit"@
    || name == "varspadesuit"@ || name == "circledS"@ || name == "female"@ || name == "male"@
    || name == "astrosun"@ || name == "sun"@ || name == "leftmoon"@ || name == "rightmoon"@
    || name == "smiley"@ || name == "Earth"@ || name == "flat"@ || name == "standardstate"@
    || name == "natural"@ || name == "sharp"@ || name == "permil"@ || name == "QED"@
    || name == "lightning"@ || name == "diameter"@ || name == "leftouterjoin"@
    || name == "rightouterjoin"@ || name == "concavediamond"@
    || name == "concavediamondtickleft"@ || name == "concavediamondtickright"@
    || name == "fullouterjoin"@ || name == "triangle"@ || name == "vartriangle"@
    || name == "whitesquaretickleft"@ || name == "whitesquaretickright"@ || name == "prime"@
    || name == "dprime"@ || name == "trprime"@ || name == "qprime"@ || name == "backprime"@
    || name == "backdprime"@ || name == "backtrprime"@ || name == "forall"@ || name == "exists"@
    || name == "complement"@ || name == "nexists"@ || name == "neg"@ || name == "lnot"@
    || name == "therefore"@ || name == "because"@ || name == "subset"@ || name == "supset"@
    || name == "strictif"@ || name == "strictfi"@ || name == "mapsto"@ || name == "implies"@
    || name == "mid"@ || name == "to"@ || name == "impliedby"@ || name == "in"@
    || name == "isin"@ || name == "ni"@ || name == "gets"@ || name == "iff"@ || name == "notni"@
    || name == "land"@ || name == "emptyset"@ || name == "varnothing"@ || name == "ldotp"@
    || name == "cdotp"@ || name == "cdot"@ || name == "centerdot"@ || name == "circ"@
    || name == "bullet"@ || name == "circledast"@ || name == "circledcirc"@
    || name == "circleddash"@ || name == "bigcirc"@ || name == "leftthreetimes"@
    || name == "rhd"@ || name == "lhd"@ || name == "rightthreetimes"@ || name == "rtimes"@
    || name == "ltimes"@ || name == "leftmodels"@ || name == "amalg"@ || name == "ast"@
    || name == "asymp"@ || name == "And"@ || name == "with"@ || name == "lor"@
    || name == "setminus"@ || name == "Cup"@ || name == "cup"@ || name == "sqcup"@
    || name == "sqcap"@ || name == "lessdot"@ || name == "barwedge"@ || name == "curlyvee"@
    || name == "curlywedge"@ || name == "sslash"@ || name == "div"@ || name == "mp"@
    || name == "times"@ || name == "boxdot"@ || name == "divideontimes"@ || name == "odot"@
    || name == "unlhd"@ || name == "boxminus"@ || name == "dotplus"@ || name == "ominus"@
    || name == "unrhd"@ || name == "boxplus"@ || name == "doublebarwedge"@ || name == "oplus"@
    || name == "uplus"@ || name == "boxtimes"@ || name == "doublecap"@ || name == "otimes"@
    || name == "vee"@ || name == "veebar"@ || name == "Cap"@ || name == "parr"@
    || name == "wedge"@ || name == "cap"@ || name == "gtrdot"@ || name == "pm"@
    || name == "intercal"@ || name == "wr"@ || name == "circledvert"@
    || name == "blackhourglass"@ || name == "circlehbar"@ || name == "operp"@
    || name == "boxast"@ || name == "boxbox"@ || name == "oslash"@ || name == "boxcircle"@
    || name == "diamond"@ || name == "Otimes"@ || name == "hourglass"@ || name == "otimeshat"@
    || name == "triangletimes"@ || name == "lozengeminus"@ || name == "star"@ || name == "obar"@
    || name == "obslash"@ || name == "triangleminus"@ || name == "odiv"@
    || name == "triangleplus"@ || name == "circledequal"@ || name == "ogreaterthan"@
    || name == "circledparallel"@ || name == "olessthan"@ || name == "eqcirc"@
    || name == "lessgtr"@ || name == "smile"@ || name == "sincoh"@ || name == "eqcolon"@
    || name == "minuscolon"@ || name == "lesssim"@ || name == "sqsubset"@ || name == "ll"@
    || name == "sqsubseteq"@ || name == "eqqcolon"@ || name == "lll"@ || name == "sqsupset"@
    || name == "llless"@ || name == "sqsupseteq"@ || name == "approx"@ || name == "eqdef"@
    || name == "lt"@ || name == "stareq"@ || name == "approxeq"@ || name == "eqsim"@
    || name == "measeq"@ || name == "Subset"@ || name == "arceq"@ || name == "eqslantgtr"@
    || name == "eqslantless"@ || name == "models"@ || name == "subseteq"@ || name == "backcong"@
    || name == "equiv"@ || name == "multimap"@ || name == "subseteqq"@
    || name == "fallingdotseq"@ || name == "multimapboth"@ || name == "succ"@
    || name == "backsim"@ || name == "frown"@ || name == "multimapinv"@ || name == "succapprox"@
    || name == "backsimeq"@ || name == "ge"@ || name == "origof"@ || name == "succcurlyeq"@
    || name == "between"@ || name == "geq"@ || name == "owns"@ || name == "succeq"@
    || name == "bumpeq"@ || name == "geqq"@ || name == "parallel"@ || name == "succsim"@
    || name == "Bumpeq"@ || name == "geqslant"@ || name == "perp"@ || name == "Supset"@
    || name == "circeq"@ || name == "gg"@ || name == "Perp"@ || name == "coh"@ || name == "ggg"@
    || name == "pitchfork"@ || name == "supseteq"@ || name == "gggtr"@ || name == "prec"@
    || name == "supseteqq"@ || name == "gt"@ || name == "precapprox"@ || name == "thickapprox"@
    || name == "gtrapprox"@ || name == "preccurlyeq"@ || name == "thicksim"@
    || name == "gtreqless"@ || name == "preceq"@ || name == "trianglelefteq"@
    || name == "coloneqq"@ || name == "colonequals"@ || name == "gtreqqless"@
    || name == "precsim"@ || name == "triangleq"@ || name == "Coloneqq"@
    || name == "coloncolonequals"@ || name == "gtrless"@ || name == "propto"@
    || name == "trianglerighteq"@ || name == "gtrsim"@ || name == "questeq"@
    || name == "varpropto"@ || name == "imageof"@ || name == "cong"@ || name == "risingdotseq"@
    || name == "vartriangleleft"@ || name == "curlyeqprec"@ || name == "scoh"@
    || name == "vartriangleright"@ || name == "curlyeqsucc"@ || name == "le"@
    || name == "vdash"@ || name == "dashv"@ || name == "leq"@ || name == "vDash"@
    || name == "dblcolon"@ || name == "coloncolon"@ || name == "leqq"@ || name == "sim"@
    || name == "Vdash"@ || name == "doteq"@ || name == "leqslant"@ || name == "simeq"@
    || name == "Dash"@ || name == "Doteq"@ || name == "lessapprox"@ || name == "Vvdash"@
    || name == "doteqdot"@ || name == "lesseqgtr"@ || name == "smallfrown"@ || name == "veeeq"@
    || name == "eqeq"@ || name == "lesseqqgtr"@ || name == "wedgeq"@ || name == "bowtie"@
    || name == "Join"@ || name == "gnapprox"@ || name == "ngeqslant"@ || name == "nsubset"@
    || name == "nVdash"@ || name == "gneq"@ || name == "ngtr"@ || name == "nsubseteq"@
    || name == "precnapprox"@ || name == "gneqq"@ || name == "nleq"@ || name == "nsubseteqq"@
    || name == "precneqq"@ || name == "gnsim"@ || name == "nleqq"@ || name == "nsucc"@
    || name == "precnsim"@ || name == "nleqslant"@ || name == "nsucceq"@ || name == "subsetneq"@
    || name == "lnapprox"@ || name == "nless"@ || name == "nsupset"@ || name == "subsetneqq"@
    || name == "lneq"@ || name == "nmid"@ || name == "nsupseteq"@ || name == "succnapprox"@
    || name == "lneqq"@ || name == "notin"@ || name == "nsupseteqq"@ || name == "succneqq"@
    || name == "lnsim"@ || name == "ntriangleleft"@ || name == "succnsim"@
    || name == "nparallel"@ || name == "ntrianglelefteq"@ || name == "supsetneq"@
    || name == "ncong"@ || name == "nprec"@ || name == "ntriangleright"@
    || name == "supsetneqq"@ || name == "ne"@ || name == "npreceq"@
    || name == "ntrianglerighteq"@ || name == "neq"@ || name == "nvdash"@ || name == "ngeq"@
    || name == "nvDash"@ || name == "ngeqq"@ || name == "nsim"@ || name == "nVDash"@
    || name == "circlearrowleft"@ || name == "Leftrightarrow"@ || name == "restriction"@
    || name == "circlearrowright"@ || name == "leftrightarrows"@ || name == "rightarrow"@
    || name == "curvearrowleft"@ || name == "leftrightharpoons"@ || name == "Rightarrow"@
    || name == "curvearrowright"@ || name == "leftrightsquigarrow"@ || name == "rightarrowtail"@
    || name == "dashleftarrow"@ || name == "Lleftarrow"@ || name == "rightharpoondown"@
    || name == "dashrightarrow"@ || name == "longleftarrow"@ || name == "rightharpoonup"@
    || name == "downarrow"@ || name == "Longleftarrow"@ || name == "rightleftarrows"@
    || name == "Downarrow"@ || name == "longleftrightarrow"@ || name == "rightleftharpoons"@
    || name == "downdownarrows"@ || name == "Longleftrightarrow"@ || name == "rightrightarrows"@
    || name == "downharpoonleft"@ || name == "longmapsto"@ || name == "rightsquigarrow"@
    || name == "downharpoonright"@ || name == "longrightarrow"@ || name == "Rrightarrow"@
    || name == "Longrightarrow"@ || name == "Rsh"@ || name == "hookleftarrow"@
    || name == "looparrowleft"@ || name == "searrow"@ || name == "hookrightarrow"@
    || name == "looparrowright"@ || name == "swarrow"@ || name == "Lsh"@ || name == "mapsfrom"@
    || name == "twoheadleftarrow"@ || name == "twoheadrightarrow"@ || name == "leadsto"@
    || name == "nearrow"@ || name == "uparrow"@ || name == "leftarrow"@ || name == "nleftarrow"@
    || name == "Uparrow"@ || name == "Leftarrow"@ || name == "nLeftarrow"@
    || name == "updownarrow"@ || name == "leftarrowtail"@ || name == "nleftrightarrow"@
    || name == "Updownarrow"@ || name == "leftharpoondown"@ || name == "nLeftrightarrow"@
    || name == "upharpoonleft"@ || name == "leftharpoonup"@ || name == "nrightarrow"@
    || name == "upharpoonright"@ || name == "leftleftarrows"@ || name == "nRightarrow"@
    || name == "upuparrows"@ || name == "leftrightarrow"@ || name == "nwarrow"@
    || name == "backslash"@ || name == "arccos"@ || name == "cos"@ || name == "csc"@
    || name == "exp"@ || name == "ker"@ || name == "sinh"@ || name == "arcsin"@
    || name == "cosh"@ || name == "deg"@ || name == "lg"@ || name == "ln"@ || name == "arctan"@
    || name == "cot"@ || name == "det"@ || name == "hom"@ || name == "log"@ || name == "sec"@
    || name == "tan"@ || name == "arg"@ || name == "coth"@ || name == "dim"@ || name == "sin"@
    || name == "tanh"@ || name == "sgn"@ || name == "lim"@ || name == "Pr"@ || name == "sup"@
    || name == "max"@ || name == "inf"@ || name == "gcd"@ || name == "min"@
}

/// Whether `name` is a command that stands for one symbol or function name.
pub fn simple_command(name: &str) -> (known: bool)
    ensures
        known == is_simple_command(name@),
{
    str_eq(name, "alpha") || str_eq(name, "beta") || str_eq(name, "gamma")
    || str_eq(name, "delta") || str_eq(name, "epsilon") || str_eq(name, "zeta")
    || str_eq(name, "eta") || str_eq(name, "theta") || str_eq(name, "iota")
    || str_eq(name, "kappa") || str_eq(name, "lambda") || str_eq(name, "mu")
    || str_eq(name, "nu") || str_eq(name, "xi") || str_eq(name, "pi") || str_eq(name, "rho")
    || str_eq(name, "sigma") || str_eq(name, "tau") || str_eq(name, "upsilon")
    || str_eq(name, "phi") || str_eq(name, "chi") || str_eq(name, "psi")
    || str_eq(name, "omega") || str_eq(name, "omicron") || str_eq(name, "Alpha")
    || str_eq(name, "Beta") || str_eq(name, "Gamma") || str_eq(name, "Delta")
    || str_eq(name, "Epsilon") || str_eq(name, "Zeta") || str_eq(name, "Eta")
    || str_eq(name, "Theta") || str_eq(name, "Iota") || str_eq(name, "Kappa")
    || str_eq(name, "Lambda") || str_eq(name, "Mu") || str_eq(name, "Nu") || str_eq(name, "Xi")
    || str_eq(name, "Pi") || str_eq(name, "Rho") || str_eq(name, "Sigma") || str_eq(name, "Tau")
    || str_eq(name, "Upsilon") || str_eq(name, "Phi") || str_eq(name, "Chi")
    || str_eq(name, "Psi") || str_eq(name, "Omega") || str_eq(name, "Omicron")
    || str_eq(name, "varepsilon") || str_eq(name, "vartheta") || str_eq(name, "varkappa")
    || str_eq(name, "varrho") || str_eq(name, "varsigma") || str_eq(name, "varpi")
    || str_eq(name, "varphi") || str_eq(name, "varGamma") || str_eq(name, "varDelta")
    || str_eq(name, "varTheta") || str_eq(name, "varLambda") || str_eq(name, "varXi")
    || str_eq(name, "varPi") || str_eq(name, "varSigma") || str_eq(name, "varUpsilon")
    || str_eq(name, "varPhi") || str_eq(name, "varPsi") || str_eq(name, "varOmega")
    || str_eq(name, "aleph") || str_eq(name, "beth") || str_eq(name, "gimel")
    || str_eq(name, "daleth") || str_eq(name, "digamma") || str_eq(name, "eth")
    || str_eq(name, "ell") || str_eq(name, "nabla") || str_eq(name, "partial")
    || str_eq(name, "Finv") || str_eq(name, "Game") || str_eq(name, "hbar")
    || str_eq(name, "hslash") || str_eq(name, "imath") || str_eq(name, "jmath")
    || str_eq(name, "Im") || str_eq(name, "Re") || str_eq(name, "wp") || str_eq(name, "Bbbk")
    || str_eq(name, "Angstrom") || str_eq(name, "backepsilon") || str_eq(name, "ldots")
    || str_eq(name, "dotso") || str_eq(name, "dotsc") || str_eq(name, "cdots")
    || str_eq(name, "dotsi") || str_eq(name, "dotsm") || str_eq(name, "dotsb")
    || str_eq(name, "idotsin") || str_eq(name, "ddots") || str_eq(name, "iddots")
    || str_eq(name, "vdots") || str_eq(name, "mathellipsis") || str_eq(name, "infty")
    || str_eq(name, "checkmark") || str_eq(name, "ballotx") || str_eq(name, "dagger")
    || str_eq(name, "dag") || str_eq(name, "ddagger") || str_eq(name, "ddag")
    || str_eq(name, "angle") || str_eq(name, "measuredangle") || str_eq(name, "lq")
    || str_eq(name, "Box") || str_eq(name, "sphericalangle") || str_eq(name, "square")
    || str_eq(name, "top") || str_eq(name, "rq") || str_eq(name, "blacksquare")
    || str_eq(name, "bot") || str_eq(name, "triangledown") || str_eq(name, "Bot")
    || str_eq(name, "triangleleft") || str_eq(name, "triangleright") || str_eq(name, "cent")
    || str_eq(name, "colon") || str_eq(name, "ratio") || str_eq(name, "vcentcolon")
    || str_eq(name, "bigtriangledown") || str_eq(name, "pounds") || str_eq(name, "mathsterling")
    || str_eq(name, "bigtriangleup") || str_eq(name, "blacktriangle")
    || str_eq(name, "blacktriangledown") || str_eq(name, "yen")
    || str_eq(name, "blacktriangleleft") || str_eq(name, "euro")
    || str_eq(name, "blacktriangleright") || str_eq(name, "Diamond") || str_eq(name, "degree")
    || str_eq(name, "lozenge") || str_eq(name, "blacklozenge") || str_eq(name, "mho")
    || str_eq(name, "bigstar") || str_eq(name, "diagdown") || str_eq(name, "maltese")
    || str_eq(name, "diagup") || str_eq(name, "P") || str_eq(name, "clubsuit")
    || str_eq(name, "varclubsuit") || str_eq(name, "S") || str_eq(name, "diamondsuit")
    || str_eq(name, "vardiamondsuit") || str_eq(name, "copyright") || str_eq(name, "heartsuit")
    || str_eq(name, "varheartsuit") || str_eq(name, "circledR") || str_eq(name, "spadesuit")
    || str_eq(name, "varspadesuit") || str_eq(name, "circledS") || str_eq(name, "female")
    || str_eq(name, "male") || str_eq(name, "astrosun") || str_eq(name, "sun")
    || str_eq(name, "leftmoon") || str_eq(name, "rightmoon") || str_eq(name, "smiley")
    || str_eq(name, "Earth") || str_eq(name, "flat") || str_eq(name, "standardstate")
    || str_eq(name, "natural") || str_eq(name, "sharp") || str_eq(name, "permil")
    || str_eq(name, "QED") || str_eq(name, "lightning") || str_eq(name, "diameter")
    || str_eq(name, "leftouterjoin") || str_eq(name, "rightouterjoin")
    || str_eq(name, "concavediamond") || str_eq(name, "concavediamondtickleft")
    || str_eq(name, "concavediamondtickright") || str_eq(name, "fullouterjoin")
    || str_eq(name, "triangle") || str_eq(name, "vartriangle")
    || str_eq(name, "whitesquaretickleft") || str_eq(name, "whitesquaretickright")
    || str_eq(name, "prime") || str_eq(name, "dprime") || str_eq(name, "trprime")
    || str_eq(name, "qprime") || str_eq(name, "backprime") || str_eq(name, "backdprime")
    || str_eq(name, "backtrprime") || str_eq(name, "forall") || str_eq(name, "exists")
    || str_eq(name, "complement") || str_eq(name, "nexists") || str_eq(name, "neg")
    || str_eq(name, "lnot") || str_eq(name, "therefore") || str_eq(name, "because")
    || str_eq(name, "subset") || str_eq(name, "supset") || str_eq(name, "strictif")
    || str_eq(name, "strictfi") || str_eq(name, "mapsto") || str_eq(name, "implies")
    || str_eq(name, "mid") || str_eq(name, "to") || str_eq(name, "impliedby")
    || str_eq(name, "in") || str_eq(name, "isin") || str_eq(name, "ni") || str_eq(name, "gets")
    || str_eq(name, "iff") || str_eq(name, "notni") || str_eq(name, "land")
    || str_eq(name, "emptyset") || str_eq(name, "varnothing") || str_eq(name, "ldotp")
    || str_eq(name, "cdotp") || str_eq(name, "cdot") || str_eq(name, "centerdot")
    || str_eq(name, "circ") || str_eq(name, "bullet") || str_eq(name, "circledast")
    || str_eq(name, "circledcirc") || str_eq(name, "circleddash") || str_eq(name, "bigcirc")
    || str_eq(name, "leftthreetimes") || str_eq(name, "rhd") || str_eq(name, "lhd")
    || str_eq(name, "rightthreetimes") || str_eq(name, "rtimes") || str_eq(name, "ltimes")
    || str_eq(name, "leftmodels") || str_eq(name, "amalg") || str_eq(name, "ast")
    || str_eq(name, "asymp") || str_eq(name, "And") || str_eq(name, "with")
    || str_eq(name, "lor") || str_eq(name, "setminus") || str_eq(name, "Cup")
    || str_eq(name, "cup") || str_eq(name, "sqcup") || str_eq(name, "sqcap")
    || str_eq(name, "lessdot") || str_eq(name, "barwedge") || str_eq(name, "curlyvee")
    || str_eq(name, "curlywedge") || str_eq(name, "sslash") || str_eq(name, "div")
    || str_eq(name, "mp") || str_eq(name, "times") || str_eq(name, "boxdot")
    || str_eq(name, "divideontimes") || str_eq(name, "odot") || str_eq(name, "unlhd")
    || str_eq(name, "boxminus") || str_eq(name, "dotplus") || str_eq(name, "ominus")
    || str_eq(name, "unrhd") || str_eq(name, "boxplus") || str_eq(name, "doublebarwedge")
    || str_eq(name, "oplus") || str_eq(name, "uplus") || str_eq(name, "boxtimes")
    || str_eq(name, "doublecap") || str_eq(name, "otimes") || str_eq(name, "vee")
    || str_eq(name, "veebar") || str_eq(name, "Cap") || str_eq(name, "parr")
    || str_eq(name, "wedge") || str_eq(name, "cap") || str_eq(name, "gtrdot")
    || str_eq(name, "pm") || str_eq(name, "intercal") || str_eq(name, "wr")
    || str_eq(name, "circledvert") || str_eq(name, "blackhourglass")
    || str_eq(name, "circlehbar") || str_eq(name, "operp") || str_eq(name, "boxast")
    || str_eq(name, "boxbox") || str_eq(name, "oslash") || str_eq(name, "boxcircle")
    || str_eq(name, "diamond") || str_eq(name, "Otimes") || str_eq(name, "hourglass")
    || str_eq(name, "otimeshat") || str_eq(name, "triangletimes")
    || str_eq(name, "lozengeminus") || str_eq(name, "star") || str_eq(name, "obar")
    || str_eq(name, "obslash") || str_eq(name, "triangleminus") || str_eq(name, "odiv")
    || str_eq(name, "triangleplus") || str_eq(name, "circledequal")
    || str_eq(name, "ogreaterthan") || str_eq(name, "circledparallel")
    || str_eq(name, "olessthan") || str_eq(name, "eqcirc") || str_eq(name, "lessgtr")
    || str_eq(name, "smile") || str_eq(name, "sincoh") || str_eq(name, "eqcolon")
    || str_eq(name, "minuscolon") || str_eq(name, "lesssim") || str_eq(name, "sqsubset")
    || str_eq(name, "ll") || str_eq(name, "sqsubseteq") || str_eq(name, "eqqcolon")
    || str_eq(name, "lll") || str_eq(name, "sqsupset") || str_eq(name, "llless")
    || str_eq(name, "sqsupseteq") || str_eq(name, "approx") || str_eq(name, "eqdef")
    || str_eq(name, "lt") || str_eq(name, "stareq") || str_eq(name, "approxeq")
    || str_eq(name, "eqsim") || str_eq(name, "measeq") || str_eq(name, "Subset")
    || str_eq(name, "arceq") || str_eq(name, "eqslantgtr") || str_eq(name, "eqslantless")
    || str_eq(name, "models") || str_eq(name, "subseteq") || str_eq(name, "backcong")
    || str_eq(name, "equiv") || str_eq(name, "multimap") || str_eq(name, "subseteqq")
    || str_eq(name, "fallingdotseq") || str_eq(name, "multimapboth") || str_eq(name, "succ")
    || str_eq(name, "backsim") || str_eq(name, "frown") || str_eq(name, "multimapinv")
    || str_eq(name, "succapprox") || str_eq(name, "backsimeq") || str_eq(name, "ge")
    || str_eq(name, "origof") || str_eq(name, "succcurlyeq") || str_eq(name, "between")
    || str_eq(name, "geq") || str_eq(name, "owns") || str_eq(name, "succeq")
    || str_eq(name, "bumpeq") || str_eq(name, "geqq") || str_eq(name, "parallel")
    || str_eq(name, "succsim") || str_eq(name, "Bumpeq") || str_eq(name, "geqslant")
    || str_eq(name, "perp") || str_eq(name, "Supset") || str_eq(name, "circeq")
    || str_eq(name, "gg") || str_eq(name, "Perp") || str_eq(name, "coh") || str_eq(name, "ggg")
    || str_eq(name, "pitchfork") || str_eq(name, "supseteq") || str_eq(name, "gggtr")
    || str_eq(name, "prec") || str_eq(name, "supseteqq") || str_eq(name, "gt")
    || str_eq(name, "precapprox") || str_eq(name, "thickapprox") || str_eq(name, "gtrapprox")
    || str_eq(name, "preccurlyeq") || str_eq(name, "thicksim") || str_eq(name, "gtreqless")
    || str_eq(name, "preceq") || str_eq(name, "trianglelefteq") || str_eq(name, "coloneqq")
    || str_eq(name, "colonequals") || str_eq(name, "gtreqqless") || str_eq(name, "precsim")
    || str_eq(name, "triangleq") || str_eq(name, "Coloneqq") || str_eq(name, "coloncolonequals")
    || str_eq(name, "gtrless") || str_eq(name, "propto") || str_eq(name, "trianglerighteq")
    || str_eq(name, "gtrsim") || str_eq(name, "questeq") || str_eq(name, "varpropto")
    || str_eq(name, "imageof") || str_eq(name, "cong") || str_eq(name, "risingdotseq")
    || str_eq(name, "vartriangleleft") || str_eq(name, "curlyeqprec") || str_eq(name, "scoh")
    || str_eq(name, "vartriangleright") || str_eq(name, "curlyeqsucc") || str_eq(name, "le")
    || str_eq(name, "vdash") || str_eq(name, "dashv") || str_eq(name, "leq")
    || str_eq(name, "vDash") || str_eq(name, "dblcolon") || str_eq(name, "coloncolon")
    || str_eq(name, "leqq") || str_eq(name, "sim") || str_eq(name, "Vdash")
    || str_eq(name, "doteq") || str_eq(name, "leqslant") || str_eq(name, "simeq")
    || str_eq(name, "Dash") || str_eq(name, "Doteq") || str_eq(name, "lessapprox")
    || str_eq(name, "Vvdash") || str_eq(name, "doteqdot") || str_eq(name, "lesseqgtr")
    || str_eq(name, "smallfrown") || str_eq(name, "veeeq") || str_eq(name, "eqeq")
    || str_eq(name, "lesseqqgtr") || str_eq(name, "wedgeq") || str_eq(name, "bowtie")
    || str_eq(name, "Join") || str_eq(name, "gnapprox") || str_eq(name, "ngeqslant")
    || str_eq(name, "nsubset") || str_eq(name, "nVdash") || str_eq(name, "gneq")
    || str_eq(name, "ngtr") || str_eq(name, "nsubseteq") || str_eq(name, "precnapprox")
    || str_eq(name, "gneqq") || str_eq(name, "nleq") || str_eq(name, "nsubseteqq")
    || str_eq(name, "precneqq") || str_eq(name, "gnsim") || str_eq(name, "nleqq")
    || str_eq(name, "nsucc") || str_eq(name, "precnsim") || str_eq(name, "nleqslant")
    || str_eq(name, "nsucceq") || str_eq(name, "subsetneq") || str_eq(name, "lnapprox")
    || str_eq(name, "nless") || str_eq(name, "nsupset") || str_eq(name, "subsetneqq")
    || str_eq(name, "lneq") || str_eq(name, "nmid") || str_eq(name, "nsupseteq")
    || str_eq(name, "succnapprox") || str_eq(name, "lneqq") || str_eq(name, "notin")
    || str_eq(name, "nsupseteqq") || str_eq(name, "succneqq") || str_eq(name, "lnsim")
    || str_eq(name, "ntriangleleft") || str_eq(name, "succnsim") || str_eq(name, "nparallel")
    || str_eq(name, "ntrianglelefteq") || str_eq(name, "supsetneq") || str_eq(name, "ncong")
    || str_eq(name, "nprec") || str_eq(name, "ntriangleright") || str_eq(name, "supsetneqq")
    || str_eq(name, "ne") || str_eq(name, "npreceq") || str_eq(name, "ntrianglerighteq")
    || str_eq(name, "neq") || str_eq(name, "nvdash") || str_eq(name, "ngeq")
    || str_eq(name, "nvDash") || str_eq(name, "ngeqq") || str_eq(name, "nsim")
    || str_eq(name, "nVDash") || str_eq(name, "circlearrowleft")
    || str_eq(name, "Leftrightarrow") || str_eq(name, "restriction")
    || str_eq(name, "circlearrowright") || str_eq(name, "leftrightarrows")
    || str_eq(name, "rightarrow") || str_eq(name, "curvearrowleft")
    || str_eq(name, "leftrightharpoons") || str_eq(name, "Rightarrow")
    || str_eq(name, "curvearrowright") || str_eq(name, "leftrightsquigarrow")
    || str_eq(name, "rightarrowtail") || str_eq(name, "dashleftarrow")
    || str_eq(name, "Lleftarrow") || str_eq(name, "rightharpoondown")
    || str_eq(name, "dashrightarrow") || str_eq(name, "longleftarrow")
    || str_eq(name, "rightharpoonup") || str_eq(name, "downarrow")
    || str_eq(name, "Longleftarrow") || str_eq(name, "rightleftarrows")
    || str_eq(name, "Downarrow") || str_eq(name, "longleftrightarrow")
    || str_eq(name, "rightleftharpoons") || str_eq(name, "downdownarrows")
    || str_eq(name, "Longleftrightarrow") || str_eq(name, "rightrightarrows")
    || str_eq(name, "downharpoonleft") || str_eq(name, "longmapsto")
    || str_eq(name, "rightsquigarrow") || str_eq(name, "downharpoonright")
    || str_eq(name, "longrightarrow") || str_eq(name, "Rrightarrow")
    || str_eq(name, "Longrightarrow") || str_eq(name, "Rsh") || str_eq(name, "hookleftarrow")
    || str_eq(name, "looparrowleft") || str_eq(name, "searrow")
    || str_eq(name, "hookrightarrow") || str_eq(name, "looparrowright")
    || str_eq(name, "swarrow") || str_eq(name, "Lsh") || str_eq(name, "mapsfrom")
    || str_eq(name, "twoheadleftarrow") || str_eq(name, "twoheadrightarrow")
    || str_eq(name, "leadsto") || str_eq(name, "nearrow") || str_eq(name, "uparrow")
    || str_eq(name, "leftarrow") || str_eq(name, "nleftarrow") || str_eq(name, "Uparrow")
    || str_eq(name, "Leftarrow") || str_eq(name, "nLeftarrow") || str_eq(name, "updownarrow")
    || str_eq(name, "leftarrowtail") || str_eq(name, "nleftrightarrow")
    || str_eq(name, "Updownarrow") || str_eq(name, "leftharpoondown")
    || str_eq(name, "nLeftrightarrow") || str_eq(name, "upharpoonleft")
    || str_eq(name, "leftharpoonup") || str_eq(name, "nrightarrow")
    || str_eq(name, "upharpoonright") || str_eq(name, "leftleftarrows")
    || str_eq(name, "nRightarrow") || str_eq(name, "upuparrows")
    || str_eq(name, "leftrightarrow") || str_eq(name, "nwarrow") || str_eq(name, "backslash")
    || str_eq(name, "arccos") || str_eq(name, "cos") || str_eq(name, "csc")
    || str_eq(name, "exp") || str_eq(name, "ker") || str_eq(name, "sinh")
    || str_eq(name, "arcsin") || str_eq(name, "cosh") || str_eq(name, "deg")
    || str_eq(name, "lg") || str_eq(name, "ln") || str_eq(name, "arctan") || str_eq(name, "cot")
    || str_eq(name, "det") || str_eq(name, "hom") || str_eq(name, "log") || str_eq(name, "sec")
    || str_eq(name, "tan") || str_eq(name, "arg") || str_eq(name, "coth") || str_eq(name, "dim")
    || str_eq(name, "sin") || str_eq(name, "tanh") || str_eq(name, "sgn") || str_eq(name, "lim")
    || str_eq(name, "Pr") || str_eq(name, "sup") || str_eq(name, "max") || str_eq(name, "inf")
    || str_eq(name, "gcd") || str_eq(name, "min")
}

} // verus!
