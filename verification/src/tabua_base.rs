//! Motor basico de uma tabua de decremento.
//!
//! Uma tabua guarda a sequencia de taxas por duracao e a coluna derivada de
//! sobreviventes, truncada no primeiro zero exato. Com taxas exatas em
//! [0, 1], a coluna de sobreviventes zera exatamente no passo seguinte a
//! primeira taxa igual a um; o fecho da tabua e portanto classificado por
//! essa taxa, e a coluna arredondada serve apenas as razoes de
//! probabilidade. Alem do fim dos dados uma tabua aberta (plato) repete a
//! ultima taxa indefinidamente.

use crate::duracao::DuracaoEstendida;
use crate::taxa::{
    lei_razao_limites, produto_espec, razao, razao_espec, valores, produto, Taxa, MEIO, UM,
};
use vstd::arithmetic::div_mod::*;
use vstd::arithmetic::mul::*;
use vstd::prelude::*;

verus! {

/// Populacao inicial (radix) da coluna de sobreviventes.
pub const POPULACAO_INICIAL: u64 = 10_000;

/// Valor da coluna de sobreviventes na duracao zero, em bilionesimos.
pub const SOBREVIVENTES_INICIAIS: u64 = POPULACAO_INICIAL * UM;

/// Todas as taxas da sequencia estao no intervalo [0, UM].
pub open spec fn taxas_validas(ts: Seq<int>) -> bool {
    forall|i: int| 0 <= i < ts.len() ==> 0 <= #[trigger] ts[i] <= UM
}

/// O fecho esta correto: `fim` aponta a primeira taxa igual a um, e e
/// `None` quando nenhuma taxa e a certeza.
pub open spec fn fecho_correto(ts: Seq<int>, fim: Option<int>) -> bool {
    match fim {
        Some(k) => 0 <= k < ts.len() && ts[k] == UM && (forall|i: int|
            0 <= i < k ==> #[trigger] ts[i] != UM),
        None => forall|i: int| 0 <= i < ts.len() ==> #[trigger] ts[i] != UM,
    }
}

/// Um passo da recursao de sobreviventes: a populacao que resta depois de
/// um periodo com taxa de decremento `q`.
pub open spec fn passo_espec(l: int, q: int) -> int {
    (l * ((UM as int) - q) + MEIO) / (UM as int)
}

/// Indice maximo da coluna de sobreviventes: o passo seguinte a primeira
/// certeza numa tabua fechada, o comprimento dos dados numa aberta.
pub open spec fn limite_espec(ts: Seq<int>, fim: Option<int>) -> int {
    match fim {
        Some(k) => k + 1,
        None => ts.len() as int,
    }
}

/// Valor da coluna de sobreviventes no indice `i`.
pub open spec fn sobreviventes_ate(ts: Seq<int>, i: int) -> int
    decreases i,
{
    if i <= 0 {
        SOBREVIVENTES_INICIAIS as int
    } else {
        passo_espec(sobreviventes_ate(ts, i - 1), ts[i - 1])
    }
}

/// Extrapolacao alem dos dados: repete `e` vezes o passo com a taxa `q`.
pub open spec fn extrapola_espec(l: int, q: int, e: nat) -> int
    decreases e,
{
    if e == 0 {
        l
    } else {
        passo_espec(extrapola_espec(l, q, (e - 1) as nat), q)
    }
}

/// Contagem de sobreviventes numa duracao finita `y` qualquer: a coluna
/// truncada ao seu limite, extrapolada pela ultima taxa alem dele.
pub open spec fn contagem_espec(ts: Seq<int>, fim: Option<int>, y: int) -> int {
    let ub = limite_espec(ts, fim);
    if y <= ub {
        sobreviventes_ate(ts, y)
    } else {
        extrapola_espec(sobreviventes_ate(ts, ub), ts[ts.len() - 1], (y - ub) as nat)
    }
}

/// Tempo futuro maximo a partir da duracao `x`: `max(0, w + 1 - x)` numa
/// tabua fechada de fim `w`, infinito numa aberta.
pub open spec fn tempo_futuro_espec(fim: Option<int>, x: int) -> DuracaoEstendida {
    match fim {
        Some(k) => DuracaoEstendida::Finita((if x <= k {
            k + 1 - x
        } else {
            0
        }) as u16),
        None => DuracaoEstendida::Infinita,
    }
}

/// Indice da taxa devolvida por uma consulta `qx`: a duracao de entrada e
/// presa ao intervalo dos dados, e o horizonte ao tempo futuro maximo e ao
/// comprimento restante.
pub open spec fn indice_qx_espec(
    ts: Seq<int>,
    fim: Option<int>,
    x: int,
    t: DuracaoEstendida,
) -> int {
    let n = ts.len() as int;
    let xp = if x < n - 1 {
        x
    } else {
        n - 1
    };
    let resto = n - 1 - xp;
    let teto = match tempo_futuro_espec(fim, xp) {
        DuracaoEstendida::Finita(v) => if v <= resto {
            v as int
        } else {
            resto
        },
        DuracaoEstendida::Infinita => resto,
    };
    xp + t.truncada_espec(teto)
}

/// Taxa devolvida por uma consulta `qx`.
pub open spec fn qx_espec(ts: Seq<int>, fim: Option<int>, x: int, t: DuracaoEstendida) -> int {
    ts[indice_qx_espec(ts, fim, x, t)]
}

/// Probabilidade de sobreviver `t` periodos alem da duracao `x`: um para
/// `t` igual a zero, zero quando a contagem de partida ja e nula ou o
/// horizonte e infinito, e a razao das contagens nos demais casos.
pub open spec fn tpx_espec(ts: Seq<int>, fim: Option<int>, x: int, t: DuracaoEstendida) -> int {
    if t == DuracaoEstendida::Finita(0u16) {
        UM as int
    } else {
        let den = contagem_espec(ts, fim, x);
        if den == 0 {
            0int
        } else {
            match t {
                DuracaoEstendida::Infinita => 0int,
                DuracaoEstendida::Finita(tv) => razao_espec(
                    contagem_espec(ts, fim, x + tv),
                    den,
                ),
            }
        }
    }
}

/// O passo de sobreviventes nunca cresce nem fica negativo.
pub proof fn lei_passo_limites(l: int, q: int)
    requires
        0 <= l,
        0 <= q <= UM,
    ensures
        0 <= passo_espec(l, q) <= l,
        l * ((UM as int) - q) <= l * (UM as int),
{
    let c = (UM as int) - q;
    lemma_mul_nonnegative(l, c);
    lemma_div_pos_is_pos(l * c + MEIO, UM as int);
    assert(l * c <= l * (UM as int)) by {
        if l > 0 {
            lemma_mul_left_inequality(l, c, UM as int);
        } else {
            lemma_mul_basics(c);
            lemma_mul_basics(UM as int);
        }
    }
    assert(passo_espec(l, q) <= l) by {
        assert(l * c + MEIO < (UM as int) * (l + 1)) by {
            lemma_mul_is_distributive_add(UM as int, l, 1);
            lemma_mul_basics(UM as int);
            lemma_mul_is_commutative(l, UM as int);
        }
        lemma_multiply_divide_lt(l * c + MEIO, UM as int, l + 1);
    }
}

/// O passo com a taxa da certeza zera a populacao.
pub proof fn lei_passo_um(l: int)
    ensures
        passo_espec(l, UM as int) == 0,
{
    lemma_mul_basics(l);
    lemma_basic_div(MEIO as int, UM as int);
}

/// O passo de uma populacao ja nula e nulo.
pub proof fn lei_passo_nulo(q: int)
    requires
        0 <= q <= UM,
    ensures
        passo_espec(0, q) == 0,
{
    lemma_mul_basics((UM as int) - q);
    lemma_basic_div(MEIO as int, UM as int);
}

/// Cada contagem e um passo sobre a anterior, com a taxa dos dados dentro
/// do limite e a ultima taxa alem dele.
pub proof fn lei_contagem_degrau(ts: Seq<int>, fim: Option<int>, y: int)
    requires
        1 <= ts.len(),
        fecho_correto(ts, fim),
        1 <= y,
    ensures
        contagem_espec(ts, fim, y) == passo_espec(
            contagem_espec(ts, fim, y - 1),
            if y <= limite_espec(ts, fim) {
                ts[y - 1]
            } else {
                ts[ts.len() - 1]
            },
        ),
{
    let ub = limite_espec(ts, fim);
    if y <= ub {
    } else if y == ub + 1 {
        let l0 = sobreviventes_ate(ts, ub);
        let uq = ts[ts.len() - 1];
        assert(extrapola_espec(l0, uq, 0nat) == l0);
        assert(extrapola_espec(l0, uq, 1nat) == passo_espec(extrapola_espec(l0, uq, 0nat), uq));
    } else {
        let l0 = sobreviventes_ate(ts, ub);
        let uq = ts[ts.len() - 1];
        let e = (y - ub) as nat;
        assert(extrapola_espec(l0, uq, e) == passo_espec(extrapola_espec(l0, uq, (e - 1) as nat), uq));
    }
}

/// A contagem de sobreviventes fica entre zero e a populacao inicial e
/// nunca cresce com a duracao.
pub proof fn lei_contagem_limites(ts: Seq<int>, fim: Option<int>, y: int)
    requires
        taxas_validas(ts),
        1 <= ts.len(),
        fecho_correto(ts, fim),
        0 <= y,
    ensures
        0 <= contagem_espec(ts, fim, y) <= SOBREVIVENTES_INICIAIS,
        1 <= y ==> contagem_espec(ts, fim, y) <= contagem_espec(ts, fim, y - 1),
    decreases y,
{
    if y == 0 {
    } else {
        lei_contagem_limites(ts, fim, y - 1);
        lei_contagem_degrau(ts, fim, y);
        let q = if y <= limite_espec(ts, fim) {
            ts[y - 1]
        } else {
            ts[ts.len() - 1]
        };
        lei_passo_limites(contagem_espec(ts, fim, y - 1), q);
    }
}

/// A contagem de sobreviventes e monotona nao crescente.
pub proof fn lei_contagem_ordenada(ts: Seq<int>, fim: Option<int>, y1: int, y2: int)
    requires
        taxas_validas(ts),
        1 <= ts.len(),
        fecho_correto(ts, fim),
        0 <= y1 <= y2,
    ensures
        contagem_espec(ts, fim, y2) <= contagem_espec(ts, fim, y1),
        0 <= contagem_espec(ts, fim, y2) <= SOBREVIVENTES_INICIAIS,
        0 <= contagem_espec(ts, fim, y1) <= SOBREVIVENTES_INICIAIS,
    decreases y2 - y1,
{
    lei_contagem_limites(ts, fim, y1);
    lei_contagem_limites(ts, fim, y2);
    if y1 < y2 {
        lei_contagem_ordenada(ts, fim, y1, y2 - 1);
    }
}

/// Numa tabua fechada a contagem e exatamente zero do passo seguinte ao
/// fim em diante.
pub proof fn lei_contagem_fechada(ts: Seq<int>, k: int, y: int)
    requires
        taxas_validas(ts),
        1 <= ts.len(),
        fecho_correto(ts, Some(k)),
        y >= k + 1,
    ensures
        contagem_espec(ts, Some(k), y) == 0,
    decreases y,
{
    if y == k + 1 {
        lei_contagem_limites(ts, Some(k), k);
        lei_contagem_degrau(ts, Some(k), y);
        lei_passo_um(contagem_espec(ts, Some(k), k));
    } else {
        lei_contagem_fechada(ts, k, y - 1);
        lei_contagem_degrau(ts, Some(k), y);
        lei_passo_nulo(ts[ts.len() - 1]);
    }
}

/// A consulta `qx` de uma tabua basica, pelo seu modelo.
pub open spec fn qx_base(tb: TabuaBase, x: int, t: DuracaoEstendida) -> int {
    qx_espec(tb.taxas(), tb.fecho(), x, t)
}

/// A consulta `tpx` de uma tabua basica, pelo seu modelo.
pub open spec fn tpx_base(tb: TabuaBase, x: int, t: DuracaoEstendida) -> int {
    tpx_espec(tb.taxas(), tb.fecho(), x, t)
}

/// Uma tabua basica bem formada: o que `TabuaBase::estrutura` garante.
pub open spec fn base_valida(tb: TabuaBase) -> bool {
    &&& 1 <= tb.taxas().len() <= 65535
    &&& taxas_validas(tb.taxas())
    &&& fecho_correto(tb.taxas(), tb.fecho())
}

/// Todas as tabuas de um conjunto sao bem formadas.
pub open spec fn bases_validas(bases: Seq<TabuaBase>) -> bool {
    forall|k: int| 0 <= k < bases.len() ==> base_valida(#[trigger] bases[k])
}

/// O indice devolvido por uma consulta `qx` cai sempre nos dados.
pub proof fn lei_indice_qx(ts: Seq<int>, fim: Option<int>, x: int, t: DuracaoEstendida)
    requires
        1 <= ts.len(),
        0 <= x,
    ensures
        0 <= indice_qx_espec(ts, fim, x, t) < ts.len(),
{
}

/// A consulta `qx` devolve sempre uma taxa valida.
pub proof fn lei_qx_limites(ts: Seq<int>, fim: Option<int>, x: int, t: DuracaoEstendida)
    requires
        taxas_validas(ts),
        1 <= ts.len(),
        0 <= x,
    ensures
        0 <= qx_espec(ts, fim, x, t) <= UM,
{
    lei_indice_qx(ts, fim, x, t);
}

/// A consulta `tpx` devolve sempre uma taxa valida.
pub proof fn lei_tpx_limites(ts: Seq<int>, fim: Option<int>, x: int, t: DuracaoEstendida)
    requires
        taxas_validas(ts),
        1 <= ts.len(),
        fecho_correto(ts, fim),
        0 <= x,
    ensures
        0 <= tpx_espec(ts, fim, x, t) <= UM,
{
    if t != DuracaoEstendida::Finita(0u16) {
        let den = contagem_espec(ts, fim, x);
        if den != 0 {
            match t {
                DuracaoEstendida::Infinita => {},
                DuracaoEstendida::Finita(tv) => {
                    lei_contagem_ordenada(ts, fim, x, x + tv);
                    lei_razao_limites(contagem_espec(ts, fim, x + tv), den);
                },
            }
        }
    }
}

/// Produto das probabilidades de sobrevivencia das `k` primeiras tabuas
/// de um conjunto, cada uma na sua duracao de entrada.
pub open spec fn produto_tpx_espec(bases: Seq<TabuaBase>, x: Seq<u16>, t: u16, k: nat) -> int
    decreases k,
{
    if k == 0 {
        UM as int
    } else {
        produto_espec(
            produto_tpx_espec(bases, x, t, (k - 1) as nat),
            tpx_base(bases[k - 1], x[k - 1] as int, DuracaoEstendida::Finita(t)),
        )
    }
}

/// O menor dos tempos futuros maximos das `k` primeiras tabuas.
pub open spec fn tempo_minimo_espec(bases: Seq<TabuaBase>, x: Seq<u16>, k: nat) -> DuracaoEstendida
    decreases k,
{
    if k <= 1 {
        tempo_futuro_espec(bases[0].fecho(), x[0] as int)
    } else {
        crate::duracao::minimo_espec(
            tempo_minimo_espec(bases, x, (k - 1) as nat),
            tempo_futuro_espec(bases[k - 1].fecho(), x[k - 1] as int),
        )
    }
}

/// O maior dos tempos futuros maximos das `k` primeiras tabuas.
pub open spec fn tempo_maximo_espec(bases: Seq<TabuaBase>, x: Seq<u16>, k: nat) -> DuracaoEstendida
    decreases k,
{
    if k <= 1 {
        tempo_futuro_espec(bases[0].fecho(), x[0] as int)
    } else {
        crate::duracao::maximo_espec(
            tempo_maximo_espec(bases, x, (k - 1) as nat),
            tempo_futuro_espec(bases[k - 1].fecho(), x[k - 1] as int),
        )
    }
}

/// Lei: numa tabua aberta (plato) o tempo futuro maximo e infinito para
/// toda duracao de entrada.
pub proof fn lei_tempo_futuro_aberta(fim: Option<int>, x: int)
    requires
        fim is None,
    ensures
        tempo_futuro_espec(fim, x) == DuracaoEstendida::Infinita,
{
}

/// Lei: numa tabua fechada de fim `w` o tempo futuro maximo a partir de
/// `x` e o valor finito `max(0, w + 1 - x)`.
pub proof fn lei_tempo_futuro_fechada(w: int, x: int)
    requires
        0 <= w <= 65534,
        0 <= x,
    ensures
        tempo_futuro_espec(Some(w), x) == DuracaoEstendida::Finita(
            (if w + 1 - x >= 0 {
                w + 1 - x
            } else {
                0
            }) as u16,
        ),
{
}

/// Lei: a probabilidade de sobreviver zero periodos e um, para toda tabua
/// e toda duracao de entrada.
pub proof fn lei_tpx_zero_periodos(ts: Seq<int>, fim: Option<int>, x: int)
    ensures
        tpx_espec(ts, fim, x, DuracaoEstendida::Finita(0u16)) == UM,
{
}

/// Lei: numa tabua fechada e com horizonte positivo, sobreviver ate o
/// tempo futuro maximo (ou alem dele) tem probabilidade zero. Com
/// horizonte zero vale a lei anterior: a probabilidade e um.
pub proof fn lei_tpx_apos_fim(ts: Seq<int>, k: int, x: int, t: DuracaoEstendida)
    requires
        taxas_validas(ts),
        1 <= ts.len() <= 65535,
        fecho_correto(ts, Some(k)),
        0 <= x,
        t != DuracaoEstendida::Finita(0u16),
        crate::duracao::menor_igual_espec(tempo_futuro_espec(Some(k), x), t),
    ensures
        tpx_espec(ts, Some(k), x, t) == 0,
{
    let den = contagem_espec(ts, Some(k), x);
    if den != 0 {
        lei_contagem_limites(ts, Some(k), x);
        match t {
            DuracaoEstendida::Infinita => {},
            DuracaoEstendida::Finita(tv) => {
                assert(x + tv >= k + 1);
                lei_contagem_fechada(ts, k, x + tv);
                lei_razao_limites(0, den);
            },
        }
    }
}

/// Lei: numa tabua fechada cuja certeza e a ultima taxa dos dados, a
/// consulta `qx` devolve um assim que `x + t` alcanca o fim da tabua.
pub proof fn lei_qx_fechada(ts: Seq<int>, k: int, x: int, t: DuracaoEstendida)
    requires
        taxas_validas(ts),
        1 <= ts.len() <= 65535,
        fecho_correto(ts, Some(k)),
        k == ts.len() - 1,
        0 <= x,
        match t {
            DuracaoEstendida::Finita(tv) => x + tv >= k + 1,
            DuracaoEstendida::Infinita => true,
        },
    ensures
        qx_espec(ts, Some(k), x, t) == UM,
{
    let n = ts.len() as int;
    let xp = if x < n - 1 {
        x
    } else {
        n - 1
    };
    assert(tempo_futuro_espec(Some(k), xp) == DuracaoEstendida::Finita((k + 1 - xp) as u16));
    assert(indice_qx_espec(ts, Some(k), x, t) == n - 1);
}

/// Tabua de decremento basica: taxas por duracao, coluna de sobreviventes
/// e fecho, imutaveis depois de construidos.
#[derive(Debug)]
pub struct TabuaBase {
    qx: Vec<Taxa>,
    lx: Vec<u64>,
    fim: Option<u16>,
}

impl TabuaBase {
    /// As taxas da tabua, como inteiros em bilionesimos.
    pub closed spec fn taxas(self) -> Seq<int> {
        valores(self.qx@)
    }

    /// O fecho da tabua: o indice da primeira certeza, se existe.
    pub closed spec fn fecho(self) -> Option<int> {
        match self.fim {
            Some(k) => Some(k as int),
            None => None,
        }
    }

    /// A tabua e fechada (completa) ou aberta (plato)?
    pub open spec fn fechada(self) -> bool {
        self.fecho() is Some
    }

    #[verifier::type_invariant]
    closed spec fn bem_formada(self) -> bool {
        let ts = self.taxas();
        let fe = self.fecho();
        &&& 1 <= self.qx@.len() <= 65535
        &&& taxas_validas(ts)
        &&& fecho_correto(ts, fe)
        &&& self.lx@.len() == limite_espec(ts, fe) + 1
        &&& (forall|i: int| 0 <= i < self.lx@.len() ==> self.lx@[i] == sobreviventes_ate(ts, i))
        &&& (forall|i: int| 0 <= i < self.lx@.len() ==> self.lx@[i] <= SOBREVIVENTES_INICIAIS)
    }

    /// Fatos estruturais garantidos de toda tabua construida.
    pub fn estrutura(&self)
        ensures
            base_valida(*self),
    {
        proof {
            use_type_invariant(&*self);
        }
    }

    /// Constroi a tabua a partir das taxas por duracao: classifica o fecho
    /// pela primeira certeza e deriva a coluna de sobreviventes ate o seu
    /// primeiro zero exato.
    pub fn new(qx: Vec<Taxa>) -> (r: TabuaBase)
        requires
            1 <= qx@.len() <= 65535,
        ensures
            r.taxas() == valores(qx@),
            fecho_correto(r.taxas(), r.fecho()),
    {
        let ghost vq = valores(qx@);
        let n = qx.len();
        let mut fim: Option<u16> = None;
        let mut i: usize = 0;
        while i < n
            invariant
                n == qx@.len(),
                1 <= n <= 65535,
                i <= n,
                vq == valores(qx@),
                forall|j: int| 0 <= j < i ==> 0 <= #[trigger] vq[j] <= UM,
                match fim {
                    Some(k) => 0 <= k < i && vq[k as int] == UM && (forall|j: int|
                        0 <= j < k ==> #[trigger] vq[j] != UM),
                    None => forall|j: int| 0 <= j < i ==> #[trigger] vq[j] != UM,
                },
            decreases n - i,
        {
            let q = qx[i];
            q.limites();
            if q.valor() == UM {
                if fim.is_none() {
                    fim = Some(i as u16);
                }
            }
            i = i + 1;
        }
        let ub: usize = match fim {
            Some(k) => k as usize + 1,
            None => n,
        };
        let ghost fe = match fim {
            Some(k) => Some(k as int),
            None => None::<int>,
        };
        assert(ub == limite_espec(vq, fe));
        let mut lx: Vec<u64> = Vec::new();
        lx.push(SOBREVIVENTES_INICIAIS);
        let mut i: usize = 0;
        while i < ub
            invariant
                n == qx@.len(),
                vq == valores(qx@),
                taxas_validas(vq),
                ub <= n,
                i <= ub,
                lx@.len() == i + 1,
                forall|j: int| 0 <= j < lx@.len() ==> lx@[j] == sobreviventes_ate(vq, j),
                forall|j: int| 0 <= j < lx@.len() ==> lx@[j] <= SOBREVIVENTES_INICIAIS,
            decreases ub - i,
        {
            let proximo = passo(lx[i], qx[i]);
            proof {
                assert(vq[i as int] == qx@[i as int].ver());
                assert(sobreviventes_ate(vq, i as int + 1) == passo_espec(
                    sobreviventes_ate(vq, i as int),
                    vq[i as int],
                ));
            }
            lx.push(proximo);
            i = i + 1;
        }
        TabuaBase { qx, lx, fim }
    }

    /// Copia das taxas da tabua.
    pub fn obter_taxas(&self) -> (r: Vec<Taxa>)
        ensures
            valores(r@) == self.taxas(),
            1 <= r@.len() <= 65535,
    {
        proof {
            use_type_invariant(&*self);
        }
        let mut r: Vec<Taxa> = Vec::new();
        let mut i: usize = 0;
        while i < self.qx.len()
            invariant
                i <= self.qx@.len() <= 65535,
                r@.len() == i,
                forall|j: int| 0 <= j < i ==> r@[j] == self.qx@[j],
            decreases self.qx@.len() - i,
        {
            r.push(self.qx[i]);
            i = i + 1;
        }
        proof {
            assert(valores(r@) =~= self.taxas());
        }
        r
    }

    /// Tempo futuro maximo a partir da duracao `x`.
    pub fn tempo_futuro_maximo(&self, x: u16) -> (r: DuracaoEstendida)
        ensures
            r == tempo_futuro_espec(self.fecho(), x as int),
            (r is Infinita) <==> !self.fechada(),
    {
        proof {
            use_type_invariant(&*self);
        }
        match self.fim {
            Some(k) => if x <= k {
                DuracaoEstendida::Finita(k + 1 - x)
            } else {
                DuracaoEstendida::Finita(0)
            },
            None => DuracaoEstendida::Infinita,
        }
    }

    /// Contagem de sobreviventes na duracao `y`.
    fn contagem(&self, y: usize) -> (r: u64)
        ensures
            r == contagem_espec(self.taxas(), self.fecho(), y as int),
            r <= SOBREVIVENTES_INICIAIS,
    {
        proof {
            use_type_invariant(&*self);
            lei_contagem_limites(self.taxas(), self.fecho(), y as int);
        }
        let ub = self.lx.len() - 1;
        if y <= ub {
            self.lx[y]
        } else {
            let ghost ts = self.taxas();
            let ghost fe = self.fecho();
            let ultima = self.qx[self.qx.len() - 1];
            ultima.limites();
            proof {
                assert(ultima.ver() == ts[ts.len() - 1]);
            }
            let mut acc: u64 = self.lx[ub];
            let mut e: usize = 0;
            let alvo = y - ub;
            while e < alvo
                invariant
                    e <= alvo,
                    acc == extrapola_espec(sobreviventes_ate(ts, ub as int), ultima.ver(), e as nat),
                    0 <= ultima.ver() <= UM,
                    acc <= SOBREVIVENTES_INICIAIS,
                decreases alvo - e,
            {
                proof {
                    lei_passo_limites(acc as int, ultima.ver());
                }
                acc = passo(acc, ultima);
                e = e + 1;
            }
            acc
        }
    }

    /// Taxa de decremento na duracao `x + t`, com as duas coordenadas
    /// presas aos dados disponiveis.
    pub fn qx(&self, x: u16, t: DuracaoEstendida) -> (r: Taxa)
        ensures
            r.ver() == qx_espec(self.taxas(), self.fecho(), x as int, t),
    {
        proof {
            use_type_invariant(&*self);
        }
        let n = self.qx.len();
        let xp: usize = if (x as usize) < n - 1 {
            x as usize
        } else {
            n - 1
        };
        let resto: usize = n - 1 - xp;
        let teto: usize = match self.fim {
            Some(k) => {
                let tfm: usize = if xp <= k as usize {
                    k as usize + 1 - xp
                } else {
                    0
                };
                if tfm <= resto {
                    tfm
                } else {
                    resto
                }
            },
            None => resto,
        };
        let tt: usize = match t {
            DuracaoEstendida::Finita(v) => if (v as usize) <= teto {
                v as usize
            } else {
                teto
            },
            DuracaoEstendida::Infinita => teto,
        };
        self.qx[xp + tt]
    }

    /// Probabilidade de sobreviver `t` periodos alem da duracao `x`.
    pub fn tpx(&self, x: u16, t: DuracaoEstendida) -> (r: Taxa)
        ensures
            r.ver() == tpx_espec(self.taxas(), self.fecho(), x as int, t),
    {
        proof {
            use_type_invariant(&*self);
        }
        if let DuracaoEstendida::Finita(tv) = t {
            if tv == 0 {
                return Taxa::nova(UM);
            }
        }
        let den = self.contagem(x as usize);
        if den == 0 {
            return Taxa::nova(0);
        }
        match t {
            DuracaoEstendida::Infinita => Taxa::nova(0),
            DuracaoEstendida::Finita(tv) => {
                let num = self.contagem(x as usize + tv as usize);
                proof {
                    lei_contagem_ordenada(
                        self.taxas(),
                        self.fecho(),
                        x as int,
                        x as int + tv as int,
                    );
                    lei_razao_limites(num as int, den as int);
                }
                razao(num, den)
            },
        }
    }

    /// Probabilidade de decremento exatamente na duracao `x + t`: a taxa
    /// naquele ponto vezes a probabilidade de chegar vivo a ele.
    pub fn t_qx(&self, x: u16, t: DuracaoEstendida) -> (r: Taxa)
        ensures
            r.ver() == produto_espec(
                qx_espec(self.taxas(), self.fecho(), x as int, t),
                tpx_espec(self.taxas(), self.fecho(), x as int, t),
            ),
    {
        produto(self.qx(x, t), self.tpx(x, t))
    }
}

impl Clone for TabuaBase {
    /// A copia preserva as taxas e o fecho, e com eles toda consulta.
    fn clone(&self) -> (r: Self)
        ensures
            r.taxas() == self.taxas(),
            r.fecho() == self.fecho(),
    {
        proof {
            use_type_invariant(&*self);
        }
        let mut qx: Vec<Taxa> = Vec::new();
        let mut i: usize = 0;
        while i < self.qx.len()
            invariant
                i <= self.qx@.len(),
                qx@.len() == i,
                forall|j: int| 0 <= j < i ==> qx@[j] == self.qx@[j],
            decreases self.qx@.len() - i,
        {
            qx.push(self.qx[i]);
            i = i + 1;
        }
        let mut lx: Vec<u64> = Vec::new();
        let mut i: usize = 0;
        while i < self.lx.len()
            invariant
                i <= self.lx@.len(),
                lx@.len() == i,
                forall|j: int| 0 <= j < i ==> lx@[j] == self.lx@[j],
            decreases self.lx@.len() - i,
        {
            lx.push(self.lx[i]);
            i = i + 1;
        }
        proof {
            assert(qx@ =~= self.qx@);
            assert(lx@ =~= self.lx@);
        }
        TabuaBase { qx, lx, fim: self.fim }
    }
}

/// Um passo executavel da recursao de sobreviventes.
fn passo(l: u64, q: Taxa) -> (r: u64)
    ensures
        r == passo_espec(l as int, q.ver()),
        r <= l,
{
    q.limites();
    proof {
        lei_passo_limites(l as int, q.ver());
        lemma_mul_upper_bound(l as int, u64::MAX as int, (UM as int) - q.ver(), UM as int);
    }
    let c: u64 = UM - q.valor();
    let p: u128 = (l as u128) * (c as u128) + (MEIO as u128);
    (p / (UM as u128)) as u64
}

} // verus!
