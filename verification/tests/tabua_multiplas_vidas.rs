use tabatu::taxa::{complemento, produto};
use tabatu::{Periodicidade, StatusVidasConjuntas, Tabua, TabuaInterface, TabuaMultiplasVidas, Taxa};

fn taxa_tmv(v: u64) -> Taxa {
    Taxa::nova(v * 1_000_000)
}

fn criar_tabua_1_vida_1() -> Tabua {
    Tabua::new(
        vec![taxa_tmv(0), taxa_tmv(100), taxa_tmv(500), taxa_tmv(800), taxa_tmv(1000)],
        Periodicidade::Mensal,
    )
}

fn criar_tabua_1_vida_2() -> Tabua {
    Tabua::new(
        vec![taxa_tmv(0), taxa_tmv(200), taxa_tmv(400), taxa_tmv(700), taxa_tmv(800)],
        Periodicidade::Mensal,
    )
}

#[test]
fn tabua_multiplas_vidas_pode_ser_criada_a_partir_de_outras_tabuas() {
    let tabua = criar_tabua_1_vida_1();
    TabuaMultiplasVidas::new(
        vec![tabua.clone(), tabua.clone()],
        StatusVidasConjuntas::First,
    );
    assert!(true)
}

#[test]
fn tpx_retorna_produto_acumulado_de_um_menos_qx_quando_status_eh_last() {
    let tabua = criar_tabua_1_vida_1();
    let tabua_multiplas_vidas = TabuaMultiplasVidas::new(
        vec![tabua.clone(), tabua.clone()],
        StatusVidasConjuntas::Last,
    );

    let x = vec![0, 0];
    let t = 2;

    let result = tabua_multiplas_vidas.tpx(&x, t);

    assert_eq!(
        result,
        produto(
            complemento(tabua_multiplas_vidas.qx(&x, 0)),
            complemento(tabua_multiplas_vidas.qx(&x, 1)),
        )
    );
}

#[test]
fn qx_retorna_o_produto_de_qx_de_cada_tabua_quando_status_eh_last() {
    let tabua = criar_tabua_1_vida_1();
    let tabua_multiplas_vidas = TabuaMultiplasVidas::new(
        vec![tabua.clone(), tabua.clone()],
        StatusVidasConjuntas::Last,
    );

    let x = vec![0, 0];
    let t = 2;

    let result = tabua_multiplas_vidas.qx(&x, t);

    assert_eq!(result, produto(tabua.qx(&vec![x[0]], t), tabua.qx(&vec![x[1]], t)));
}

#[test]
fn qx_retorna_um_menos_o_produto_de_1_menos_qx_quando_status_eh_first() {
    let tabua = criar_tabua_1_vida_1();
    let tabua_multiplas_vidas = TabuaMultiplasVidas::new(
        vec![tabua.clone(), tabua.clone()],
        StatusVidasConjuntas::First,
    );

    let x = vec![0, 0];
    let t = 2;

    let result = tabua_multiplas_vidas.qx(&x, t);

    assert_eq!(
        result,
        complemento(produto(
            complemento(tabua.qx(&vec![x[0]], t)),
            complemento(tabua.qx(&vec![x[1]], t)),
        ))
    );
}

#[test]
fn tempo_futuro_max_retorna_o_menor_dos_tempos_quando_status_eh_first() {
    let tabua1 = criar_tabua_1_vida_1();
    let tabua2 = criar_tabua_1_vida_2();
    let tabua_multiplas_vidas = TabuaMultiplasVidas::new(
        vec![tabua1.clone(), tabua2.clone()],
        StatusVidasConjuntas::First,
    );

    let x = vec![0, 0];
    let result = tabua_multiplas_vidas.tempo_futuro_maximo(&x);

    let result_tabua1 = tabua1.tempo_futuro_maximo(&vec![x[0]]);
    let result_tabua2 = tabua2.tempo_futuro_maximo(&vec![x[1]]);

    assert_eq!(result, result_tabua1.minimo(result_tabua2));
}

#[test]
fn tempo_futuro_max_retorna_o_maior_dos_tempos_quando_status_eh_last() {
    let tabua1 = criar_tabua_1_vida_1();
    let tabua2 = criar_tabua_1_vida_2();
    let tabua_multiplas_vidas = TabuaMultiplasVidas::new(
        vec![tabua1.clone(), tabua2.clone()],
        StatusVidasConjuntas::Last,
    );

    let x = vec![0, 0];
    let result = tabua_multiplas_vidas.tempo_futuro_maximo(&x);

    let result_tabua1 = tabua1.tempo_futuro_maximo(&vec![x[0]]);
    let result_tabua2 = tabua2.tempo_futuro_maximo(&vec![x[1]]);

    assert_eq!(result, result_tabua1.maximo(result_tabua2));
}
